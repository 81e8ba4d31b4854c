//! Lookup tables, sets of capabilities, arenas and layouts.

use spirv_headers as spirv;
use spv_writer::arena::{Arena, Handle};
use spv_writer::ir::{
    ArraySize, Constant, ConstantInner, ImageClass, ImageDimension, ScalarKind, ScalarValue,
    StructMember, Type, TypeInner, VariableClass, VectorSize,
};
use spv_writer::layouter::Layouter;
use spv_writer::spv::lookup::{LocalType, LookupFunctionType, LookupType};
use spv_writer::spv::table::{CapabilitySet, Table};

fn ty(inner: TypeInner) -> Type {
    Type { name: None, inner }
}

fn member(ty: Handle<Type>, span: Option<u32>) -> StructMember {
    StructMember {
        name: None,
        span,
        ty,
    }
}

const FLOAT: TypeInner = TypeInner::Scalar {
    kind: ScalarKind::Float,
    width: 4,
};

#[test]
fn last_entry_of_a_table_counts() {
    let mut table: Table<LookupType, u32> = Table::new();
    let float = LookupType::from(LocalType::Scalar {
        kind: ScalarKind::Float,
        width: 4,
    });
    let double = LookupType::from(LocalType::Scalar {
        kind: ScalarKind::Float,
        width: 8,
    });
    assert_eq!(table.get(&float), None);
    table.insert(float, 1);
    table.insert(double, 2);
    assert_eq!(table.get(&float), Some(1));
    table.insert(float, 3);
    assert_eq!(table.get(&float), Some(3));
    assert_eq!(table.get(&double), Some(2));
    assert_eq!(table.get(&LookupType::Handle(Handle::new(0))), None);
}

#[test]
fn function_types_are_found_by_their_contents() {
    let key = |parameters: Vec<u32>, result| LookupFunctionType {
        parameter_type_ids: parameters,
        return_type_id: result,
    };
    let mut table: Table<LookupFunctionType, u32> = Table::new();
    table.insert(key(vec![1, 2], 3), 7);
    assert_eq!(table.get(&key(vec![1, 2], 3)), Some(7));
    assert_eq!(table.get(&key(vec![2, 1], 3)), None);
    assert_eq!(table.get(&key(vec![1], 3)), None);
    assert_eq!(table.get(&key(vec![1, 2], 4)), None);
}

#[test]
fn capability_is_held_once() {
    let mut set = CapabilitySet::new();
    assert!(!set.contains(spirv::Capability::Shader));
    set.insert(spirv::Capability::Shader);
    set.insert(spirv::Capability::Matrix);
    set.insert(spirv::Capability::Shader);
    assert!(set.contains(spirv::Capability::Shader));
    assert_eq!(set.len(), 2);
    assert_eq!(set.get(0), spirv::Capability::Shader);
    assert_eq!(set.get(1), spirv::Capability::Matrix);
}

#[test]
fn arena_hands_out_handles_in_order() {
    let mut arena: Arena<u32> = Arena::new();
    let a = arena.append(10);
    let b = arena.append(20);
    assert_eq!(arena.len(), 2);
    assert_eq!(*arena.get(a), 10);
    assert_eq!(*arena.get(b), 20);
    assert!(a.same(Handle::new(0)));
    assert!(!a.same(b));
}

#[test]
fn layouts_follow_from_sizes_and_alignments() {
    let mut constants: Arena<Constant> = Arena::new();
    let five = constants.append(Constant {
        name: None,
        specialization: None,
        inner: ConstantInner::Scalar {
            width: 4,
            value: ScalarValue::Uint(5),
        },
    });
    let mut types: Arena<Type> = Arena::new();
    let float = types.append(ty(FLOAT));
    let vec3 = types.append(ty(TypeInner::Vector {
        size: VectorSize::Tri,
        kind: ScalarKind::Float,
        width: 4,
    }));
    let mat2 = types.append(ty(TypeInner::Matrix {
        columns: VectorSize::Bi,
        rows: VectorSize::Tri,
        width: 4,
    }));
    let pointer = types.append(ty(TypeInner::Pointer {
        base: float,
        class: VariableClass::Private,
    }));
    let image = types.append(ty(TypeInner::Image {
        dim: ImageDimension::D2,
        arrayed: false,
        class: ImageClass::Depth,
    }));
    let fixed = types.append(ty(TypeInner::Array {
        base: vec3,
        size: ArraySize::Constant(five),
        stride: None,
    }));
    let strided = types.append(ty(TypeInner::Array {
        base: float,
        size: ArraySize::Dynamic,
        stride: Some(32),
    }));
    let record = types.append(ty(TypeInner::Struct {
        block: false,
        members: vec![
            member(float, None),
            member(vec3, None),
            member(float, Some(8)),
        ],
    }));
    let mut layouter = Layouter::new();
    layouter.initialize(&types, &constants);
    let layout = |handle| {
        let layout = layouter.resolve(handle);
        (layout.size, layout.alignment)
    };
    assert_eq!(layout(float), (4, 4));
    assert_eq!(layout(vec3), (12, 16));
    assert_eq!(layout(mat2), (32, 16));
    assert_eq!(layout(pointer), (4, 1));
    assert_eq!(layout(image), (0, 1));
    assert_eq!(layout(fixed), (80, 16));
    assert_eq!(layout(strided), (32, 4));
    // 0..4, 16..28, 28..36, rounded up to a multiple of 16
    assert_eq!(layout(record), (48, 16));
    assert_eq!(layouter.resolve(vec3).pad(0), 0);
    assert_eq!(layouter.resolve(vec3).pad(1), 15);
    assert_eq!(layouter.resolve(vec3).pad(32), 0);
}

//! Expressions.

use spirv_headers as spirv;
use spv_writer::arena::{Arena, Handle};
use spv_writer::ir::{
    ArraySize, BinaryOperator, Constant, ConstantInner, Expression, Function, FunctionArgument,
    GlobalVariable, Header, ImageClass, ImageDimension, LocalVariable, MathFunction, Module,
    SampleLevel, ScalarKind, ScalarValue, Statement, StorageAccess, StructMember, Type, TypeInner,
    UnaryOperator, VariableClass, VectorSize,
};
use spv_writer::spv::error::Error;
use spv_writer::spv::model::WriterFlags;
use spv_writer::spv::operators::{get_dimension, Dimension};
use spv_writer::spv::table::CapabilitySet;
use spv_writer::spv::writer::Writer;

struct Fixture {
    module: Module,
    function: Function,
}

fn ty(inner: TypeInner) -> Type {
    Type { name: None, inner }
}

fn scalar(kind: ScalarKind, width: u8) -> TypeInner {
    TypeInner::Scalar { kind, width }
}

fn vector(size: VectorSize, kind: ScalarKind) -> TypeInner {
    TypeInner::Vector {
        size,
        kind,
        width: 4,
    }
}

fn matrix(columns: VectorSize, rows: VectorSize) -> TypeInner {
    TypeInner::Matrix {
        columns,
        rows,
        width: 4,
    }
}

fn float() -> TypeInner {
    scalar(ScalarKind::Float, 4)
}

fn shader() -> CapabilitySet {
    let mut set = CapabilitySet::new();
    set.insert(spirv::Capability::Shader);
    set
}

impl Fixture {
    fn new() -> Fixture {
        Fixture {
            module: Module {
                header: Header {
                    version: (1, 0, 0),
                    generator: 0,
                },
                types: Arena::new(),
                constants: Arena::new(),
                global_variables: Arena::new(),
                functions: Arena::new(),
                entry_points: Vec::new(),
            },
            function: Function {
                name: None,
                arguments: Vec::new(),
                return_type: None,
                global_usage: Vec::new(),
                local_variables: Arena::new(),
                expressions: Arena::new(),
                body: Vec::new(),
            },
        }
    }

    fn type_of(&mut self, inner: TypeInner) -> Handle<Type> {
        self.module.types.append(ty(inner))
    }

    fn expression(&mut self, expression: Expression) -> Handle<Expression> {
        self.function.expressions.append(expression)
    }

    /// An argument of the function, as a value.
    fn argument(&mut self, inner: TypeInner) -> Handle<Expression> {
        let ty = self.type_of(inner);
        let index = self.function.arguments.len() as u32;
        self.function
            .arguments
            .push(FunctionArgument { name: None, ty });
        self.expression(Expression::FunctionArgument(index))
    }

    /// A variable of the module, as a pointer.
    fn variable(&mut self, class: VariableClass, inner: TypeInner) -> Handle<Expression> {
        let ty = self.type_of(inner);
        let handle = self.module.global_variables.append(GlobalVariable {
            name: None,
            class,
            binding: None,
            ty,
            init: None,
            interpolation: None,
            storage_access: StorageAccess { bits: 0 },
        });
        self.expression(Expression::GlobalVariable(handle))
    }

    fn constant(&mut self, width: u8, value: ScalarValue) -> Handle<Constant> {
        self.module.constants.append(Constant {
            name: None,
            specialization: None,
            inner: ConstantInner::Scalar { width, value },
        })
    }

    /// Writes a function that returns the expression.
    fn try_write(mut self, value: Handle<Expression>) -> Result<Vec<Vec<u32>>, Error> {
        self.function
            .body
            .push(Statement::Return { value: Some(value) });
        self.module.functions.append(self.function);
        let mut writer = Writer::new(&self.module.header, WriterFlags::NONE, shader());
        let mut words = Vec::new();
        writer.write(&self.module, &mut words)?;
        let mut list = Vec::new();
        let mut at = 5;
        while at < words.len() {
            let next = at + (words[at] >> 16) as usize;
            list.push(words[at..next].to_vec());
            at = next;
        }
        Ok(list)
    }

    fn write(self, value: Handle<Expression>) -> Vec<Vec<u32>> {
        self.try_write(value).unwrap()
    }

    /// What is not implemented.
    fn refused(self, value: Handle<Expression>) -> &'static str {
        match self.try_write(value) {
            Err(Error::FeatureNotImplemented(feature)) => feature,
            other => panic!("{:?}", other),
        }
    }
}

fn op(op: spirv::Op, operands: &[u32]) -> Vec<u32> {
    let mut words = vec![((operands.len() as u32 + 1) << 16) | op as u32];
    words.extend_from_slice(operands);
    words
}

fn of(list: &[Vec<u32>], kind: spirv::Op) -> Vec<Vec<u32>> {
    list.iter()
        .filter(|words| words[0] & 0xffff == kind as u32)
        .cloned()
        .collect()
}

/// The operation of the last instruction before the function returns.
fn last_op(list: &[Vec<u32>]) -> u32 {
    list[list.len() - 3][0] & 0xffff
}

fn last(list: &[Vec<u32>]) -> &[u32] {
    &list[list.len() - 3]
}

fn binary(operator: BinaryOperator, left: TypeInner, right: TypeInner) -> Vec<Vec<u32>> {
    let mut fixture = Fixture::new();
    let left = fixture.argument(left);
    let right = fixture.argument(right);
    let value = fixture.expression(Expression::Binary {
        op: operator,
        left,
        right,
    });
    fixture.write(value)
}

fn binary_op(operator: BinaryOperator, kind: ScalarKind) -> u32 {
    last_op(&binary(operator, scalar(kind, 4), scalar(kind, 4)))
}

#[test]
fn dimension_is_that_of_the_type() {
    assert_eq!(get_dimension(&float()), Dimension::Scalar);
    assert_eq!(
        get_dimension(&vector(VectorSize::Tri, ScalarKind::Sint)),
        Dimension::Vector
    );
    assert_eq!(
        get_dimension(&matrix(VectorSize::Bi, VectorSize::Tri)),
        Dimension::Matrix
    );
}

#[test]
fn argument_is_a_value() {
    let mut fixture = Fixture::new();
    let value = fixture.argument(float());
    let list = fixture.write(value);
    let parameter = of(&list, spirv::Op::FunctionParameter)[0][2];
    assert_eq!(
        of(&list, spirv::Op::ReturnValue),
        vec![op(spirv::Op::ReturnValue, &[parameter])]
    );
    assert!(of(&list, spirv::Op::Load).is_empty());
}

#[test]
fn variable_is_loaded() {
    let mut fixture = Fixture::new();
    let value = fixture.variable(VariableClass::Private, float());
    let list = fixture.write(value);
    let variable = of(&list, spirv::Op::Variable)[0][2];
    let number = of(&list, spirv::Op::TypeFloat)[0][1];
    let load = &of(&list, spirv::Op::Load)[0];
    assert_eq!(load[1], number);
    assert_eq!(load[3], variable);
    assert_eq!(of(&list, spirv::Op::ReturnValue)[0][1], load[2]);
}

#[test]
fn local_variable_is_loaded() {
    let mut fixture = Fixture::new();
    let number = fixture.type_of(float());
    let first = fixture.function.local_variables.append(LocalVariable {
        name: None,
        ty: number,
        init: None,
    });
    let second = fixture.function.local_variables.append(LocalVariable {
        name: None,
        ty: number,
        init: None,
    });
    assert!(!first.same(second));
    let value = fixture.expression(Expression::LocalVariable(second));
    let list = fixture.write(value);
    let variables = of(&list, spirv::Op::Variable);
    assert_eq!(variables.len(), 2);
    assert_eq!(of(&list, spirv::Op::Load)[0][3], variables[1][2]);
}

#[test]
fn arithmetic_depends_on_the_kind() {
    let table = [
        (BinaryOperator::Add, ScalarKind::Float, spirv::Op::FAdd),
        (BinaryOperator::Add, ScalarKind::Sint, spirv::Op::IAdd),
        (BinaryOperator::Add, ScalarKind::Uint, spirv::Op::IAdd),
        (BinaryOperator::Subtract, ScalarKind::Float, spirv::Op::FSub),
        (BinaryOperator::Subtract, ScalarKind::Uint, spirv::Op::ISub),
        (BinaryOperator::Multiply, ScalarKind::Float, spirv::Op::FMul),
        (BinaryOperator::Multiply, ScalarKind::Sint, spirv::Op::IMul),
        (BinaryOperator::Divide, ScalarKind::Float, spirv::Op::FDiv),
        (BinaryOperator::Divide, ScalarKind::Sint, spirv::Op::SDiv),
        (BinaryOperator::Divide, ScalarKind::Uint, spirv::Op::UDiv),
        (BinaryOperator::Modulo, ScalarKind::Float, spirv::Op::FMod),
        (BinaryOperator::Modulo, ScalarKind::Sint, spirv::Op::SMod),
        (BinaryOperator::Modulo, ScalarKind::Uint, spirv::Op::UMod),
    ];
    for (operator, kind, expected) in table.iter() {
        assert_eq!(binary_op(*operator, *kind), *expected as u32);
    }
}

#[test]
fn comparisons_yield_truth_values() {
    let table = [
        (BinaryOperator::Equal, ScalarKind::Float, spirv::Op::FOrdEqual),
        (BinaryOperator::Equal, ScalarKind::Sint, spirv::Op::IEqual),
        (BinaryOperator::Equal, ScalarKind::Bool, spirv::Op::LogicalEqual),
        (BinaryOperator::NotEqual, ScalarKind::Float, spirv::Op::FOrdNotEqual),
        (BinaryOperator::NotEqual, ScalarKind::Uint, spirv::Op::INotEqual),
        (BinaryOperator::NotEqual, ScalarKind::Bool, spirv::Op::LogicalNotEqual),
        (BinaryOperator::Less, ScalarKind::Float, spirv::Op::FOrdLessThan),
        (BinaryOperator::Less, ScalarKind::Sint, spirv::Op::SLessThan),
        (BinaryOperator::Less, ScalarKind::Uint, spirv::Op::ULessThan),
        (BinaryOperator::LessEqual, ScalarKind::Float, spirv::Op::FOrdLessThanEqual),
        (BinaryOperator::LessEqual, ScalarKind::Sint, spirv::Op::SLessThanEqual),
        (BinaryOperator::LessEqual, ScalarKind::Uint, spirv::Op::ULessThanEqual),
        (BinaryOperator::Greater, ScalarKind::Float, spirv::Op::FOrdGreaterThan),
        (BinaryOperator::Greater, ScalarKind::Sint, spirv::Op::SGreaterThan),
        (BinaryOperator::Greater, ScalarKind::Uint, spirv::Op::UGreaterThan),
        (BinaryOperator::GreaterEqual, ScalarKind::Float, spirv::Op::FOrdGreaterThanEqual),
        (BinaryOperator::GreaterEqual, ScalarKind::Sint, spirv::Op::SGreaterThanEqual),
        (BinaryOperator::GreaterEqual, ScalarKind::Uint, spirv::Op::UGreaterThanEqual),
    ];
    for (operator, kind, expected) in table.iter() {
        let list = binary(*operator, scalar(*kind, 4), scalar(*kind, 4));
        assert_eq!(last_op(&list), *expected as u32);
        let truth = of(&list, spirv::Op::TypeBool).pop().unwrap()[1];
        assert_eq!(last(&list)[1], truth);
    }
}

#[test]
fn bits_and_truth_values_are_combined() {
    let table = [
        (BinaryOperator::And, ScalarKind::Uint, spirv::Op::BitwiseAnd),
        (BinaryOperator::ExclusiveOr, ScalarKind::Uint, spirv::Op::BitwiseXor),
        (BinaryOperator::InclusiveOr, ScalarKind::Uint, spirv::Op::BitwiseOr),
        (BinaryOperator::LogicalAnd, ScalarKind::Bool, spirv::Op::LogicalAnd),
        (BinaryOperator::LogicalOr, ScalarKind::Bool, spirv::Op::LogicalOr),
        (BinaryOperator::ShiftLeft, ScalarKind::Sint, spirv::Op::ShiftLeftLogical),
        (BinaryOperator::ShiftRight, ScalarKind::Sint, spirv::Op::ShiftRightArithmetic),
        (BinaryOperator::ShiftRight, ScalarKind::Uint, spirv::Op::ShiftRightLogical),
    ];
    for (operator, kind, expected) in table.iter() {
        assert_eq!(binary_op(*operator, *kind), *expected as u32);
    }
}

#[test]
fn products_depend_on_the_shapes() {
    let vec2 = || vector(VectorSize::Bi, ScalarKind::Float);
    let mat2 = || matrix(VectorSize::Bi, VectorSize::Bi);
    let product = |left, right| binary(BinaryOperator::Multiply, left, right);
    assert_eq!(
        last_op(&product(vec2(), vec2())),
        spirv::Op::FMul as u32
    );
    assert_eq!(
        last_op(&product(
            vector(VectorSize::Bi, ScalarKind::Sint),
            vector(VectorSize::Bi, ScalarKind::Sint)
        )),
        spirv::Op::IMul as u32
    );
    assert_eq!(
        last_op(&product(vec2(), float())),
        spirv::Op::VectorTimesScalar as u32
    );
    assert_eq!(
        last_op(&product(vec2(), mat2())),
        spirv::Op::VectorTimesMatrix as u32
    );
    assert_eq!(
        last_op(&product(mat2(), float())),
        spirv::Op::MatrixTimesScalar as u32
    );
    assert_eq!(
        last_op(&product(mat2(), vec2())),
        spirv::Op::MatrixTimesVector as u32
    );
    assert_eq!(
        last_op(&product(mat2(), mat2())),
        spirv::Op::MatrixTimesMatrix as u32
    );
}

#[test]
fn scalar_times_vector_changes_places() {
    let list = binary(
        BinaryOperator::Multiply,
        float(),
        vector(VectorSize::Bi, ScalarKind::Float),
    );
    let parameters = of(&list, spirv::Op::FunctionParameter);
    let vector_type = of(&list, spirv::Op::TypeVector)[0][1];
    assert_eq!(last_op(&list), spirv::Op::VectorTimesScalar as u32);
    assert_eq!(last(&list)[1], vector_type);
    assert_eq!(last(&list)[3], parameters[1][2]);
    assert_eq!(last(&list)[4], parameters[0][2]);
}

#[test]
fn product_with_a_vector_on_the_right_is_a_vector() {
    let list = binary(
        BinaryOperator::Multiply,
        matrix(VectorSize::Bi, VectorSize::Bi),
        vector(VectorSize::Bi, ScalarKind::Float),
    );
    let parameters = of(&list, spirv::Op::FunctionParameter);
    assert_eq!(last(&list)[1], parameters[1][1]);
    assert_eq!(last(&list)[3], parameters[0][2]);
    assert_eq!(last(&list)[4], parameters[1][2]);
}

fn unary(operator: UnaryOperator, inner: TypeInner) -> Result<Vec<Vec<u32>>, Error> {
    let mut fixture = Fixture::new();
    let expr = fixture.argument(inner);
    let value = fixture.expression(Expression::Unary { op: operator, expr });
    fixture.try_write(value)
}

#[test]
fn negation_depends_on_the_kind() {
    let negate = |inner| last_op(&unary(UnaryOperator::Negate, inner).unwrap());
    assert_eq!(negate(float()), spirv::Op::FNegate as u32);
    assert_eq!(
        negate(scalar(ScalarKind::Sint, 4)),
        spirv::Op::SNegate as u32
    );
    assert_eq!(
        negate(scalar(ScalarKind::Bool, 1)),
        spirv::Op::LogicalNot as u32
    );
    assert_eq!(
        last_op(&unary(UnaryOperator::Not, scalar(ScalarKind::Uint, 4)).unwrap()),
        spirv::Op::Not as u32
    );
}

#[test]
fn nested_expressions_are_followed_to_the_last() {
    let mut fixture = Fixture::new();
    let mut value = fixture.argument(float());
    for _ in 0..5 {
        value = fixture.expression(Expression::Unary {
            op: UnaryOperator::Negate,
            expr: value,
        });
    }
    let list = fixture.write(value);
    assert_eq!(of(&list, spirv::Op::FNegate).len(), 5);
}

#[test]
fn unsigned_numbers_are_not_negated() {
    assert!(matches!(
        unary(UnaryOperator::Negate, scalar(ScalarKind::Uint, 4)),
        Err(Error::FeatureNotImplemented("negation"))
    ));
}

fn math(fun: MathFunction, arguments: Vec<TypeInner>) -> Result<Vec<Vec<u32>>, Error> {
    let mut fixture = Fixture::new();
    let mut handles = Vec::new();
    for inner in arguments {
        handles.push(fixture.argument(inner));
    }
    let value = fixture.expression(Expression::Math {
        fun,
        arg: handles[0],
        arg1: handles.get(1).copied(),
        arg2: handles.get(2).copied(),
    });
    fixture.try_write(value)
}

/// The extended instruction that a function is computed by, and its arguments.
fn extended(fun: MathFunction, arguments: Vec<TypeInner>) -> (u32, usize) {
    let list = math(fun, arguments).unwrap();
    let words = last(&list);
    assert_eq!(words[0] & 0xffff, spirv::Op::ExtInst as u32);
    assert_eq!(words[3], 1);
    let parameters = of(&list, spirv::Op::FunctionParameter);
    for (index, word) in words[5..].iter().enumerate() {
        assert_eq!(*word, parameters[index][2]);
    }
    (words[4], words.len() - 5)
}

#[test]
fn functions_of_one_argument() {
    let table = [
        (MathFunction::Sin, spirv::GLOp::Sin),
        (MathFunction::Asin, spirv::GLOp::Asin),
        (MathFunction::Cos, spirv::GLOp::Cos),
        (MathFunction::Acos, spirv::GLOp::Acos),
        (MathFunction::Tan, spirv::GLOp::Tan),
        (MathFunction::Atan, spirv::GLOp::Atan),
        (MathFunction::Ceil, spirv::GLOp::Ceil),
        (MathFunction::Round, spirv::GLOp::Round),
        (MathFunction::Floor, spirv::GLOp::Floor),
        (MathFunction::Fract, spirv::GLOp::Fract),
        (MathFunction::Trunc, spirv::GLOp::Trunc),
        (MathFunction::Normalize, spirv::GLOp::Normalize),
    ];
    for (fun, expected) in table.iter() {
        assert_eq!(extended(*fun, vec![float()]), (*expected as u32, 1));
    }
}

#[test]
fn functions_of_more_arguments() {
    let kind = |kind| scalar(kind, 4);
    let two = |fun, k| extended(fun, vec![kind(k), kind(k)]);
    assert_eq!(
        two(MathFunction::Atan2, ScalarKind::Float),
        (spirv::GLOp::Atan2 as u32, 2)
    );
    assert_eq!(
        two(MathFunction::Min, ScalarKind::Float),
        (spirv::GLOp::FMin as u32, 2)
    );
    assert_eq!(
        two(MathFunction::Min, ScalarKind::Sint),
        (spirv::GLOp::SMin as u32, 2)
    );
    assert_eq!(
        two(MathFunction::Min, ScalarKind::Uint),
        (spirv::GLOp::UMin as u32, 2)
    );
    assert_eq!(
        two(MathFunction::Max, ScalarKind::Float),
        (spirv::GLOp::FMax as u32, 2)
    );
    assert_eq!(
        two(MathFunction::Max, ScalarKind::Sint),
        (spirv::GLOp::SMax as u32, 2)
    );
    assert_eq!(
        two(MathFunction::Max, ScalarKind::Uint),
        (spirv::GLOp::UMax as u32, 2)
    );
    let three = |k| extended(MathFunction::Clamp, vec![kind(k), kind(k), kind(k)]);
    assert_eq!(
        three(ScalarKind::Float),
        (spirv::GLOp::FClamp as u32, 3)
    );
    assert_eq!(three(ScalarKind::Sint), (spirv::GLOp::SClamp as u32, 3));
    assert_eq!(three(ScalarKind::Uint), (spirv::GLOp::UClamp as u32, 3));
    let vec3 = || vector(VectorSize::Tri, ScalarKind::Float);
    assert_eq!(
        extended(MathFunction::Cross, vec![vec3(), vec3()]),
        (spirv::GLOp::Cross as u32, 2)
    );
}

#[test]
fn absolute_value_of_an_unsigned_number_is_itself() {
    assert_eq!(
        extended(MathFunction::Abs, vec![float()]),
        (spirv::GLOp::FAbs as u32, 1)
    );
    assert_eq!(
        extended(MathFunction::Abs, vec![scalar(ScalarKind::Sint, 4)]),
        (spirv::GLOp::SAbs as u32, 1)
    );
    let list = math(MathFunction::Abs, vec![scalar(ScalarKind::Uint, 4)]).unwrap();
    assert_eq!(last_op(&list), spirv::Op::CopyObject as u32);
}

#[test]
fn geometry_yields_numbers() {
    let vec3 = || vector(VectorSize::Tri, ScalarKind::Float);
    let dot = math(MathFunction::Dot, vec![vec3(), vec3()]).unwrap();
    let number = of(&dot, spirv::Op::TypeFloat)[0][1];
    assert_eq!(last_op(&dot), spirv::Op::Dot as u32);
    assert_eq!(last(&dot)[1], number);
    let distance = math(MathFunction::Distance, vec![vec3(), vec3()]).unwrap();
    assert_eq!(last(&distance)[4], spirv::GLOp::Distance as u32);
    assert_eq!(last(&distance)[1], of(&distance, spirv::Op::TypeFloat)[0][1]);
    assert_eq!(last(&distance).len(), 7);
    let length = math(MathFunction::Length, vec![vec3()]).unwrap();
    assert_eq!(last(&length)[4], spirv::GLOp::Length as u32);
    assert_eq!(last(&length)[1], of(&length, spirv::Op::TypeFloat)[0][1]);
    assert_eq!(last(&length).len(), 6);
}

#[test]
fn transposition_exchanges_columns_and_rows() {
    let list = math(
        MathFunction::Transpose,
        vec![matrix(VectorSize::Bi, VectorSize::Tri)],
    )
    .unwrap();
    let matrices = of(&list, spirv::Op::TypeMatrix);
    assert_eq!(last_op(&list), spirv::Op::Transpose as u32);
    assert_eq!(last(&list)[1], matrices[1][1]);
    assert_eq!(matrices[1][3], 3);
    let column = of(&list, spirv::Op::TypeVector)
        .iter()
        .find(|words| words[1] == matrices[1][2])
        .unwrap()[3];
    assert_eq!(column, 2);
}

#[test]
fn other_functions_are_refused() {
    assert!(matches!(
        math(MathFunction::Exp, vec![float()]),
        Err(Error::FeatureNotImplemented("math function"))
    ));
}

#[test]
fn value_is_composed() {
    let mut fixture = Fixture::new();
    let a = fixture.argument(float());
    let b = fixture.argument(float());
    let pair = fixture.type_of(vector(VectorSize::Bi, ScalarKind::Float));
    let value = fixture.expression(Expression::Compose {
        ty: pair,
        components: vec![b, a],
    });
    let list = fixture.write(value);
    let parameters = of(&list, spirv::Op::FunctionParameter);
    let vector_type = of(&list, spirv::Op::TypeVector)[0][1];
    assert_eq!(last_op(&list), spirv::Op::CompositeConstruct as u32);
    assert_eq!(last(&list)[1], vector_type);
    assert_eq!(last(&list)[3..], [parameters[1][2], parameters[0][2]]);
}

#[test]
fn component_of_a_value_is_extracted() {
    let mut fixture = Fixture::new();
    let base = fixture.argument(vector(VectorSize::Tri, ScalarKind::Float));
    let value = fixture.expression(Expression::AccessIndex { base, index: 2 });
    let list = fixture.write(value);
    let parameter = of(&list, spirv::Op::FunctionParameter)[0][2];
    let number = of(&list, spirv::Op::TypeFloat)[0][1];
    assert_eq!(last_op(&list), spirv::Op::CompositeExtract as u32);
    assert_eq!(last(&list)[1], number);
    assert_eq!(last(&list)[3..], [parameter, 2]);
}

#[test]
fn component_of_a_value_is_extracted_by_a_computed_index() {
    let mut fixture = Fixture::new();
    let base = fixture.argument(vector(VectorSize::Tri, ScalarKind::Float));
    let index = fixture.argument(scalar(ScalarKind::Uint, 4));
    let value = fixture.expression(Expression::Access { base, index });
    let list = fixture.write(value);
    let parameters = of(&list, spirv::Op::FunctionParameter);
    assert_eq!(last_op(&list), spirv::Op::VectorExtractDynamic as u32);
    assert_eq!(last(&list)[3..], [parameters[0][2], parameters[1][2]]);
}

#[test]
fn member_of_a_variable_is_reached_by_a_pointer() {
    let mut fixture = Fixture::new();
    let number = fixture.type_of(float());
    let member = |ty| StructMember {
        name: None,
        span: None,
        ty,
    };
    let base = fixture.variable(
        VariableClass::Private,
        TypeInner::Struct {
            block: false,
            members: vec![member(number), member(number)],
        },
    );
    let value = fixture.expression(Expression::AccessIndex { base, index: 1 });
    let list = fixture.write(value);
    let variable = of(&list, spirv::Op::Variable)[0][2];
    let constant = &of(&list, spirv::Op::Constant)[0];
    assert_eq!(constant[3], 1);
    assert_eq!(
        of(&list, spirv::Op::TypeInt)[0][1..],
        [constant[1], 32, 1]
    );
    let chain = &of(&list, spirv::Op::AccessChain)[0];
    assert_eq!(chain[3..], [variable, constant[2]]);
    let pointer = of(&list, spirv::Op::TypePointer)
        .into_iter()
        .find(|words| words[1] == chain[1])
        .unwrap();
    assert_eq!(pointer[2], spirv::StorageClass::Private as u32);
    assert_eq!(pointer[3], of(&list, spirv::Op::TypeFloat)[0][1]);
    assert_eq!(last_op(&list), spirv::Op::Load as u32);
    assert_eq!(last(&list)[3], chain[2]);
}

#[test]
fn element_of_a_variable_is_reached_by_a_pointer() {
    let mut fixture = Fixture::new();
    let number = fixture.type_of(float());
    let base = fixture.variable(
        VariableClass::Private,
        TypeInner::Array {
            base: number,
            size: ArraySize::Dynamic,
            stride: None,
        },
    );
    let index = fixture.argument(scalar(ScalarKind::Uint, 4));
    let value = fixture.expression(Expression::Access { base, index });
    let list = fixture.write(value);
    let chain = &of(&list, spirv::Op::AccessChain)[0];
    assert_eq!(chain[3], of(&list, spirv::Op::Variable)[0][2]);
    assert_eq!(chain[4], of(&list, spirv::Op::FunctionParameter)[0][2]);
}

#[test]
fn column_of_a_matrix_has_as_many_components_as_it_has_rows() {
    let mut fixture = Fixture::new();
    let base = fixture.variable(
        VariableClass::Private,
        matrix(VectorSize::Quad, VectorSize::Tri),
    );
    let value = fixture.expression(Expression::AccessIndex { base, index: 0 });
    let list = fixture.write(value);
    let load_type = last(&list)[1];
    let column = of(&list, spirv::Op::TypeVector)
        .into_iter()
        .find(|words| words[1] == load_type)
        .unwrap();
    assert_eq!(column[3], 3);
}

#[test]
fn number_has_no_components() {
    let mut fixture = Fixture::new();
    let base = fixture.argument(float());
    let value = fixture.expression(Expression::AccessIndex { base, index: 0 });
    assert_eq!(
        fixture.refused(value),
        "accessing index of non vector or struct"
    );
    let mut fixture = Fixture::new();
    let base = fixture.argument(float());
    let value = fixture.expression(Expression::Access { base, index: base });
    assert_eq!(
        fixture.refused(value),
        "accessing index of non vector or array"
    );
}

#[test]
fn element_of_an_array_value_is_refused() {
    let mut fixture = Fixture::new();
    let number = fixture.type_of(float());
    let index = fixture.argument(scalar(ScalarKind::Uint, 4));
    let base = fixture.argument(TypeInner::Array {
        base: number,
        size: ArraySize::Dynamic,
        stride: None,
    });
    let value = fixture.expression(Expression::Access { base, index });
    assert_eq!(fixture.refused(value), "accessing index of a value array");
}

fn cast(from: TypeInner, kind: ScalarKind) -> Vec<Vec<u32>> {
    let mut fixture = Fixture::new();
    let expr = fixture.argument(from);
    let value = fixture.expression(Expression::As {
        expr,
        kind,
        convert: true,
    });
    fixture.write(value)
}

#[test]
fn numbers_are_converted() {
    let op_of = |from, to| last_op(&cast(scalar(from, 4), to));
    assert_eq!(
        op_of(ScalarKind::Float, ScalarKind::Uint),
        spirv::Op::ConvertFToU as u32
    );
    assert_eq!(
        op_of(ScalarKind::Float, ScalarKind::Sint),
        spirv::Op::ConvertFToS as u32
    );
    assert_eq!(
        op_of(ScalarKind::Sint, ScalarKind::Float),
        spirv::Op::ConvertSToF as u32
    );
    assert_eq!(
        op_of(ScalarKind::Uint, ScalarKind::Float),
        spirv::Op::ConvertUToF as u32
    );
    let list = cast(vector(VectorSize::Tri, ScalarKind::Sint), ScalarKind::Float);
    let result = last(&list)[1];
    let converted = of(&list, spirv::Op::TypeVector)
        .into_iter()
        .find(|words| words[1] == result)
        .unwrap();
    assert_eq!(converted[2], of(&list, spirv::Op::TypeFloat)[0][1]);
    assert_eq!(converted[3], 3);
}

#[test]
fn conversion_between_integers_needs_no_instruction() {
    let list = cast(scalar(ScalarKind::Sint, 4), ScalarKind::Uint);
    let parameter = of(&list, spirv::Op::FunctionParameter)[0][2];
    assert_eq!(last_op(&list), spirv::Op::Label as u32);
    assert_eq!(of(&list, spirv::Op::ReturnValue)[0][1], parameter);
}

#[test]
fn bits_are_not_reinterpreted() {
    let mut fixture = Fixture::new();
    let expr = fixture.argument(float());
    let value = fixture.expression(Expression::As {
        expr,
        kind: ScalarKind::Uint,
        convert: false,
    });
    assert_eq!(fixture.refused(value), "bitcast");
}

#[test]
fn other_expressions_are_refused() {
    let mut fixture = Fixture::new();
    let expr = fixture.argument(float());
    let value = fixture.expression(Expression::Select {
        condition: expr,
        accept: expr,
        reject: expr,
    });
    assert_eq!(fixture.refused(value), "expression");
}

#[test]
fn function_is_called_with_its_arguments() {
    let mut fixture = Fixture::new();
    let number = fixture.type_of(float());
    let callee = fixture.module.functions.append(Function {
        name: None,
        arguments: vec![FunctionArgument {
            name: None,
            ty: number,
        }],
        return_type: Some(number),
        global_usage: Vec::new(),
        local_variables: Arena::new(),
        expressions: Arena::new(),
        body: Vec::new(),
    });
    let argument = fixture.argument(float());
    let value = fixture.expression(Expression::Call {
        function: callee,
        arguments: vec![argument],
    });
    let list = fixture.write(value);
    let functions = of(&list, spirv::Op::Function);
    let parameters = of(&list, spirv::Op::FunctionParameter);
    assert_eq!(last_op(&list), spirv::Op::FunctionCall as u32);
    assert_eq!(last(&list)[1], functions[0][1]);
    assert_eq!(last(&list)[3..], [functions[0][2], parameters[1][2]]);
}

#[test]
fn constant_is_declared_once() {
    let mut fixture = Fixture::new();
    let two = fixture.constant(
        4,
        ScalarValue::Float {
            single: 0x4000_0000,
            double: 0x4000_0000_0000_0000,
        },
    );
    let left = fixture.expression(Expression::Constant(two));
    let right = fixture.expression(Expression::Constant(two));
    let value = fixture.expression(Expression::Binary {
        op: BinaryOperator::Add,
        left,
        right,
    });
    let list = fixture.write(value);
    let constants = of(&list, spirv::Op::Constant);
    assert_eq!(constants.len(), 1);
    assert_eq!(constants[0][3], 0x4000_0000);
    assert_eq!(last(&list)[3..], [constants[0][2], constants[0][2]]);
}

struct Sampling {
    arrayed: bool,
    class: ImageClass,
    coordinate: TypeInner,
    depth: bool,
    offset: bool,
}

fn sample(sampling: Sampling, level: fn(&mut Fixture) -> SampleLevel) -> Vec<Vec<u32>> {
    let mut fixture = Fixture::new();
    let image = fixture.variable(
        VariableClass::Handle,
        TypeInner::Image {
            dim: ImageDimension::D2,
            arrayed: sampling.arrayed,
            class: sampling.class,
        },
    );
    let sampler = fixture.variable(VariableClass::Handle, TypeInner::Sampler { comparison: false });
    let coordinate = fixture.argument(sampling.coordinate);
    let array_index = if sampling.arrayed {
        Some(fixture.argument(scalar(ScalarKind::Uint, 4)))
    } else {
        None
    };
    let depth_ref = if sampling.depth {
        Some(fixture.argument(float()))
    } else {
        None
    };
    let offset = if sampling.offset {
        Some(fixture.constant(4, ScalarValue::Sint(1)))
    } else {
        None
    };
    let level = level(&mut fixture);
    let value = fixture.expression(Expression::ImageSample {
        image,
        sampler,
        coordinate,
        array_index,
        offset,
        level,
        depth_ref,
    });
    fixture.write(value)
}

fn colors() -> ImageClass {
    ImageClass::Sampled {
        kind: ScalarKind::Float,
        multi: false,
    }
}

fn plain() -> Sampling {
    Sampling {
        arrayed: false,
        class: colors(),
        coordinate: vector(VectorSize::Bi, ScalarKind::Float),
        depth: false,
        offset: false,
    }
}

#[test]
fn image_is_sampled_with_its_sampler() {
    let list = sample(plain(), |_| SampleLevel::Auto);
    let loads = of(&list, spirv::Op::Load);
    let sampled = &of(&list, spirv::Op::SampledImage)[0];
    assert_eq!(sampled[1], of(&list, spirv::Op::TypeSampledImage)[0][1]);
    assert_eq!(sampled[3..], [loads[0][2], loads[1][2]]);
    assert_eq!(last_op(&list), spirv::Op::ImageSampleImplicitLod as u32);
    let parameter = of(&list, spirv::Op::FunctionParameter)[0][2];
    assert_eq!(last(&list)[3..], [sampled[2], parameter]);
    let result = of(&list, spirv::Op::TypeVector)
        .into_iter()
        .find(|words| words[1] == last(&list)[1])
        .unwrap();
    assert_eq!(result[3], 4);
    let image = &of(&list, spirv::Op::TypeImage)[0];
    assert_eq!(image[2], of(&list, spirv::Op::TypeFloat)[0][1]);
    assert_eq!(image[3], spirv::Dim::Dim2D as u32);
}

#[test]
fn level_of_detail_is_an_operand() {
    let list = sample(plain(), |_| SampleLevel::Zero);
    assert_eq!(last_op(&list), spirv::Op::ImageSampleExplicitLod as u32);
    let zero = of(&list, spirv::Op::Constant).pop().unwrap();
    assert_eq!(zero[3], 0);
    assert_eq!(last(&list)[5..], [2, zero[2]]);

    let list = sample(plain(), |fixture| {
        SampleLevel::Exact(fixture.argument(float()))
    });
    assert_eq!(last_op(&list), spirv::Op::ImageSampleExplicitLod as u32);
    let parameters = of(&list, spirv::Op::FunctionParameter);
    assert_eq!(last(&list)[5..], [2, parameters[1][2]]);

    let list = sample(plain(), |fixture| {
        SampleLevel::Bias(fixture.argument(float()))
    });
    assert_eq!(last_op(&list), spirv::Op::ImageSampleImplicitLod as u32);
    let parameters = of(&list, spirv::Op::FunctionParameter);
    assert_eq!(last(&list)[5..], [1, parameters[1][2]]);

    let list = sample(plain(), |fixture| SampleLevel::Gradient {
        x: fixture.argument(vector(VectorSize::Bi, ScalarKind::Float)),
        y: fixture.argument(vector(VectorSize::Bi, ScalarKind::Float)),
    });
    assert_eq!(last_op(&list), spirv::Op::ImageSampleExplicitLod as u32);
    let parameters = of(&list, spirv::Op::FunctionParameter);
    assert_eq!(last(&list)[5..], [4, parameters[1][2], parameters[2][2]]);
}

#[test]
fn offset_is_the_last_operand() {
    let list = sample(
        Sampling {
            offset: true,
            ..plain()
        },
        |fixture| SampleLevel::Bias(fixture.argument(float())),
    );
    let parameters = of(&list, spirv::Op::FunctionParameter);
    let offset = of(&list, spirv::Op::Constant).pop().unwrap()[2];
    assert_eq!(last(&list)[5..], [1, parameters[1][2], 8, offset]);
}

#[test]
fn depth_is_compared() {
    let list = sample(
        Sampling {
            class: ImageClass::Depth,
            depth: true,
            ..plain()
        },
        |_| SampleLevel::Auto,
    );
    let parameters = of(&list, spirv::Op::FunctionParameter);
    assert_eq!(last_op(&list), spirv::Op::ImageSampleDrefImplicitLod as u32);
    assert_eq!(last(&list)[1], of(&list, spirv::Op::TypeFloat)[0][1]);
    assert_eq!(last(&list)[5..], [parameters[1][2]]);
}

#[test]
fn layer_is_the_last_component_of_the_coordinate() {
    let list = sample(
        Sampling {
            arrayed: true,
            ..plain()
        },
        |_| SampleLevel::Auto,
    );
    let parameters = of(&list, spirv::Op::FunctionParameter);
    let extracts = of(&list, spirv::Op::CompositeExtract);
    assert_eq!(extracts.len(), 2);
    assert_eq!(extracts[0][3..], [parameters[0][2], 0]);
    assert_eq!(extracts[1][3..], [parameters[0][2], 1]);
    let layer = &of(&list, spirv::Op::ConvertUToF)[0];
    assert_eq!(layer[3], parameters[1][2]);
    let coordinate = &of(&list, spirv::Op::CompositeConstruct)[0];
    assert_eq!(
        coordinate[3..],
        [extracts[0][2], extracts[1][2], layer[2]]
    );
    assert_eq!(last(&list)[4], coordinate[2]);
    let coordinate_type = of(&list, spirv::Op::TypeVector)
        .into_iter()
        .find(|words| words[1] == coordinate[1])
        .unwrap();
    assert_eq!(coordinate_type[3], 3);
}

#[test]
fn layer_of_a_line_makes_a_pair() {
    let list = sample(
        Sampling {
            arrayed: true,
            coordinate: float(),
            ..plain()
        },
        |_| SampleLevel::Auto,
    );
    let parameters = of(&list, spirv::Op::FunctionParameter);
    assert!(of(&list, spirv::Op::CompositeExtract).is_empty());
    let layer = &of(&list, spirv::Op::ConvertUToF)[0];
    let coordinate = &of(&list, spirv::Op::CompositeConstruct)[0];
    assert_eq!(coordinate[3..], [parameters[0][2], layer[2]]);
}

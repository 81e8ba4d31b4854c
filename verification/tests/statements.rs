//! Statements.

use spirv_headers as spirv;
use spv_writer::arena::{Arena, Handle};
use spv_writer::ir::{
    Expression, Function, FunctionArgument, GlobalVariable, Header, Module, ScalarKind,
    Statement, StorageAccess, Type, TypeInner, VariableClass,
};
use spv_writer::spv::error::Error;
use spv_writer::spv::model::WriterFlags;
use spv_writer::spv::table::CapabilitySet;
use spv_writer::spv::writer::Writer;

fn op(op: spirv::Op, operands: &[u32]) -> Vec<u32> {
    let mut words = vec![((operands.len() as u32 + 1) << 16) | op as u32];
    words.extend_from_slice(operands);
    words
}

/// A function of one truth value, which the first expression stands for.
fn try_write(body: Vec<Statement>) -> Result<Vec<Vec<u32>>, Error> {
    let mut module = Module {
        header: Header {
            version: (1, 0, 0),
            generator: 0,
        },
        types: Arena::new(),
        constants: Arena::new(),
        global_variables: Arena::new(),
        functions: Arena::new(),
        entry_points: Vec::new(),
    };
    let ty = module.types.append(Type {
        name: None,
        inner: TypeInner::Scalar {
            kind: ScalarKind::Bool,
            width: 1,
        },
    });
    let variable = module.global_variables.append(GlobalVariable {
        name: None,
        class: VariableClass::Private,
        binding: None,
        ty,
        init: None,
        interpolation: None,
        storage_access: StorageAccess { bits: 0 },
    });
    let mut expressions = Arena::new();
    expressions.append(Expression::FunctionArgument(0));
    expressions.append(Expression::GlobalVariable(variable));
    module.functions.append(Function {
        name: None,
        arguments: vec![FunctionArgument { name: None, ty }],
        return_type: None,
        global_usage: Vec::new(),
        local_variables: Arena::new(),
        expressions,
        body,
    });
    let mut capabilities = CapabilitySet::new();
    capabilities.insert(spirv::Capability::Shader);
    let mut writer = Writer::new(&module.header, WriterFlags::NONE, capabilities);
    let mut words = Vec::new();
    writer.write(&module, &mut words)?;
    let mut list = Vec::new();
    let mut at = 5;
    while at < words.len() {
        let next = at + (words[at] >> 16) as usize;
        list.push(words[at..next].to_vec());
        at = next;
    }
    let start = list
        .iter()
        .position(|words| words[0] & 0xffff == spirv::Op::FunctionParameter as u32)
        .unwrap();
    Ok(list.split_off(start))
}

/// What is written for the body, from the first label on. The parameter is 3, the label 7.
fn write(body: Vec<Statement>) -> Vec<Vec<u32>> {
    let mut list = try_write(body).unwrap();
    assert_eq!(list.remove(0), op(spirv::Op::FunctionParameter, &[4, 3]));
    assert_eq!(list.pop(), Some(op(spirv::Op::FunctionEnd, &[])));
    list
}

fn condition() -> Handle<Expression> {
    Handle::new(0)
}

fn variable() -> Handle<Expression> {
    Handle::new(1)
}

#[test]
fn body_ends_with_a_return() {
    assert_eq!(
        write(Vec::new()),
        vec![op(spirv::Op::Label, &[7]), op(spirv::Op::Return, &[])]
    );
    assert_eq!(
        write(vec![Statement::Return { value: None }]),
        vec![op(spirv::Op::Label, &[7]), op(spirv::Op::Return, &[])]
    );
    assert_eq!(
        write(vec![Statement::Return {
            value: Some(condition())
        }]),
        vec![
            op(spirv::Op::Label, &[7]),
            op(spirv::Op::ReturnValue, &[3])
        ]
    );
}

#[test]
fn value_is_stored() {
    assert_eq!(
        write(vec![Statement::Store {
            pointer: variable(),
            value: condition(),
        }]),
        vec![
            op(spirv::Op::Label, &[7]),
            op(spirv::Op::Store, &[8, 3]),
            op(spirv::Op::Return, &[]),
        ]
    );
}

#[test]
fn block_is_entered_and_left() {
    assert_eq!(
        write(vec![Statement::Block(Vec::new())]),
        vec![
            op(spirv::Op::Label, &[7]),
            op(spirv::Op::Branch, &[8]),
            op(spirv::Op::Label, &[8]),
            op(spirv::Op::Branch, &[9]),
            op(spirv::Op::Label, &[9]),
            op(spirv::Op::Return, &[]),
        ]
    );
}

#[test]
fn branches_meet_again() {
    assert_eq!(
        write(vec![Statement::If {
            condition: condition(),
            accept: vec![Statement::Return { value: None }],
            reject: Vec::new(),
        }]),
        vec![
            op(spirv::Op::Label, &[7]),
            op(spirv::Op::SelectionMerge, &[8, 0]),
            op(spirv::Op::BranchConditional, &[3, 9, 10]),
            op(spirv::Op::Label, &[9]),
            op(spirv::Op::Return, &[]),
            op(spirv::Op::Label, &[10]),
            op(spirv::Op::Branch, &[8]),
            op(spirv::Op::Label, &[8]),
            op(spirv::Op::Return, &[]),
        ]
    );
}

#[test]
fn loop_starts_over() {
    assert_eq!(
        write(vec![Statement::Loop {
            body: vec![Statement::If {
                condition: condition(),
                accept: vec![Statement::Break],
                reject: vec![Statement::Continue],
            }],
            continuing: Vec::new(),
        }]),
        vec![
            op(spirv::Op::Label, &[7]),
            op(spirv::Op::Branch, &[8]),
            op(spirv::Op::Label, &[8]),
            op(spirv::Op::LoopMerge, &[9, 11, 0]),
            op(spirv::Op::Branch, &[10]),
            op(spirv::Op::Label, &[10]),
            op(spirv::Op::SelectionMerge, &[12, 0]),
            op(spirv::Op::BranchConditional, &[3, 13, 14]),
            op(spirv::Op::Label, &[13]),
            op(spirv::Op::Branch, &[9]),
            op(spirv::Op::Label, &[14]),
            op(spirv::Op::Branch, &[11]),
            op(spirv::Op::Label, &[12]),
            op(spirv::Op::Branch, &[11]),
            op(spirv::Op::Label, &[11]),
            op(spirv::Op::Branch, &[8]),
            op(spirv::Op::Label, &[9]),
            op(spirv::Op::Return, &[]),
        ]
    );
}

#[test]
fn branches_lead_to_labels_of_the_function() {
    let list = write(vec![
        Statement::Loop {
            body: vec![
                Statement::Block(vec![Statement::If {
                    condition: condition(),
                    accept: vec![Statement::Break],
                    reject: Vec::new(),
                }]),
                Statement::Loop {
                    body: vec![Statement::Continue],
                    continuing: vec![Statement::Break],
                },
            ],
            continuing: vec![Statement::If {
                condition: condition(),
                accept: vec![Statement::Break],
                reject: Vec::new(),
            }],
        },
        Statement::Return { value: None },
    ]);
    let labels: Vec<u32> = list
        .iter()
        .filter(|words| words[0] & 0xffff == spirv::Op::Label as u32)
        .map(|words| words[1])
        .collect();
    let mut previous_ends = true;
    for words in &list {
        let kind = words[0] & 0xffff;
        assert_eq!(previous_ends, kind == spirv::Op::Label as u32);
        previous_ends = [
            spirv::Op::Branch,
            spirv::Op::BranchConditional,
            spirv::Op::Return,
        ]
        .iter()
        .any(|op| *op as u32 == kind);
        if kind == spirv::Op::Branch as u32 {
            assert!(labels.contains(&words[1]));
        }
        if kind == spirv::Op::BranchConditional as u32 {
            assert!(labels.contains(&words[2]));
            assert!(labels.contains(&words[3]));
        }
    }
    assert!(previous_ends);
}

#[test]
fn other_statements_are_refused() {
    assert!(matches!(
        try_write(vec![Statement::Kill]),
        Err(Error::FeatureNotImplemented("statement"))
    ));
    assert!(matches!(
        try_write(vec![Statement::Switch {
            selector: condition(),
            cases: Vec::new(),
            default: Vec::new(),
        }]),
        Err(Error::FeatureNotImplemented("statement"))
    ));
}

#[test]
fn labels_are_new_and_distinct() {
    let list = write(vec![
        Statement::Block(vec![Statement::If {
            condition: condition(),
            accept: vec![Statement::Block(Vec::new())],
            reject: Vec::new(),
        }]),
        Statement::Loop {
            body: vec![Statement::Break],
            continuing: Vec::new(),
        },
    ]);
    let mut labels: Vec<u32> = list
        .iter()
        .filter(|words| words[0] & 0xffff == spirv::Op::Label as u32)
        .map(|words| words[1])
        .collect();
    assert_eq!(labels[0], 7);
    assert!(labels[1..].iter().all(|label| *label > 7));
    let count = labels.len();
    labels.sort_unstable();
    labels.dedup();
    assert_eq!(labels.len(), count);
    // the body, the inner blocks and what follows them, both branches and what follows them, and
    // the loop with its header
    assert_eq!(count, 1 + 2 + 2 + 3 + 4);
}

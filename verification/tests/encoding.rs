//! Words, instructions and the parts of a module.

use spirv_headers as spirv;
use spv_writer::ir::Header;
use spv_writer::spv::function::{Block, Function};
use spv_writer::spv::instruction::Instruction;
use spv_writer::spv::instructions::{
    instruction_branch, instruction_entry_point, instruction_function,
    instruction_function_parameter, instruction_image_sample, instruction_label,
    instruction_memory_model, instruction_name, instruction_return, instruction_type_int,
    instruction_variable, SampleLod, Signedness,
};
use spv_writer::spv::layout::{LogicalLayout, PhysicalLayout, Section};
use spv_writer::spv::words::string_to_words;

fn words_of(instruction: &Instruction) -> Vec<u32> {
    let mut words = Vec::new();
    instruction.to_words(&mut words);
    words
}

fn first(count: u32, op: spirv::Op) -> u32 {
    (count << 16) | op as u32
}

#[test]
fn text_ends_with_a_zero_byte() {
    assert_eq!(string_to_words(""), vec![0]);
    assert_eq!(string_to_words("a"), vec![0x61]);
    assert_eq!(string_to_words("abc"), vec![0x0063_6261]);
    assert_eq!(string_to_words("abcd"), vec![0x6463_6261, 0]);
    assert_eq!(string_to_words("main"), vec![0x6e69_616d, 0]);
}

#[test]
fn text_is_written_as_utf8() {
    assert_eq!(string_to_words("\u{e9}"), vec![0x0000_a9c3]);
    assert_eq!(string_to_words("a\u{20ac}"), vec![0xac82_e261, 0]);
}

#[test]
fn text_words_hold_the_text() {
    let text = "GLSL.std.450";
    let words = string_to_words(text);
    let mut bytes = Vec::new();
    for word in &words {
        bytes.extend_from_slice(&word.to_le_bytes());
    }
    assert_eq!(&bytes[..text.len()], text.as_bytes());
    assert!(bytes[text.len()..].iter().all(|byte| *byte == 0));
    assert_eq!(words.len(), 4);
}

#[test]
fn instruction_holds_length_type_result_and_operands() {
    let mut instruction = Instruction::new(spirv::Op::IAdd, Some(3), Some(7), vec![5]);
    assert_eq!(instruction.result_id(), Some(7));
    instruction.add_operand(6);
    assert_eq!(words_of(&instruction), vec![first(5, spirv::Op::IAdd), 3, 7, 5, 6]);
    let bare = Instruction::new(spirv::Op::Return, None, None, Vec::new());
    assert_eq!(bare.result_id(), None);
    assert_eq!(words_of(&bare), vec![first(1, spirv::Op::Return)]);
}

#[test]
fn first_word_gives_length_and_operation_back() {
    let words = words_of(&instruction_name(9, "position"));
    assert_eq!((words[0] >> 16) as usize, words.len());
    assert_eq!(words[0] & 0xffff, spirv::Op::Name as u32);
}

#[test]
fn lengths_lead_from_one_instruction_to_the_next() {
    let mut section = Section::new();
    section.push(&instruction_type_int(1, 32, Signedness::Signed));
    section.push(&instruction_name(1, "number"));
    section.push(&instruction_return());
    let mut words = Vec::new();
    section.in_words(&mut words);
    let mut ops = Vec::new();
    let mut at = 0;
    while at < words.len() {
        ops.push(words[at] & 0xffff);
        at += (words[at] >> 16) as usize;
    }
    assert_eq!(at, words.len());
    assert_eq!(
        ops,
        vec![
            spirv::Op::TypeInt as u32,
            spirv::Op::Name as u32,
            spirv::Op::Return as u32,
        ]
    );
}

#[test]
fn integers_are_signed_or_not() {
    assert_eq!(
        words_of(&instruction_type_int(4, 32, Signedness::Signed)),
        vec![first(4, spirv::Op::TypeInt), 4, 32, 1]
    );
    assert_eq!(
        words_of(&instruction_type_int(4, 16, Signedness::Unsigned)),
        vec![first(4, spirv::Op::TypeInt), 4, 16, 0]
    );
}

#[test]
fn variable_may_have_an_initial_value() {
    assert_eq!(
        words_of(&instruction_variable(2, 3, spirv::StorageClass::Private, None)),
        vec![first(4, spirv::Op::Variable), 2, 3, 6]
    );
    assert_eq!(
        words_of(&instruction_variable(2, 3, spirv::StorageClass::Function, Some(8))),
        vec![first(5, spirv::Op::Variable), 2, 3, 7, 8]
    );
}

#[test]
fn sampling_depends_on_level_and_depth() {
    let op = |lod, depth| {
        words_of(&instruction_image_sample(1, 2, lod, 3, 4, depth))[0] & 0xffff
    };
    assert_eq!(op(SampleLod::Implicit, None), spirv::Op::ImageSampleImplicitLod as u32);
    assert_eq!(op(SampleLod::Explicit, None), spirv::Op::ImageSampleExplicitLod as u32);
    assert_eq!(op(SampleLod::Implicit, Some(5)), spirv::Op::ImageSampleDrefImplicitLod as u32);
    assert_eq!(op(SampleLod::Explicit, Some(5)), spirv::Op::ImageSampleDrefExplicitLod as u32);
    assert_eq!(
        words_of(&instruction_image_sample(1, 2, SampleLod::Implicit, 3, 4, Some(5))),
        vec![first(6, spirv::Op::ImageSampleDrefImplicitLod), 1, 2, 3, 4, 5]
    );
}

#[test]
fn entry_point_names_function_and_interface() {
    assert_eq!(
        words_of(&instruction_entry_point(
            spirv::ExecutionModel::Fragment,
            9,
            "main",
            &[4, 5]
        )),
        vec![first(7, spirv::Op::EntryPoint), 4, 9, 0x6e69_616d, 0, 4, 5]
    );
}

#[test]
fn header_starts_with_the_magic_number() {
    let layout = PhysicalLayout::new(&Header {
        version: (1, 3, 0),
        generator: 28,
    });
    let mut words = vec![42];
    layout.in_words(&mut words);
    assert_eq!(words, vec![42, 0x0723_0203, 0x0001_0300, 28, 0, 0]);
}

#[test]
fn storage_buffers_come_with_version_1_3() {
    let supported = |version| {
        PhysicalLayout::new(&Header {
            version,
            generator: 0,
        })
        .supports_storage_buffers()
    };
    assert!(!supported((1, 0, 0)));
    assert!(!supported((1, 2, 0)));
    assert!(supported((1, 3, 0)));
    assert!(supported((1, 5, 0)));
}

#[test]
fn parts_stand_in_order() {
    let mut layout = LogicalLayout::new();
    layout.function_definitions.push(&instruction_return());
    layout.declarations.push(&instruction_type_int(1, 32, Signedness::Signed));
    layout.memory_model.push(&instruction_memory_model(
        spirv::AddressingModel::Logical,
        spirv::MemoryModel::GLSL450,
    ));
    let mut words = Vec::new();
    layout.in_words(&mut words);
    assert_eq!(
        words,
        vec![
            first(3, spirv::Op::MemoryModel),
            0,
            1,
            first(4, spirv::Op::TypeInt),
            1,
            32,
            1,
            first(1, spirv::Op::Return),
        ]
    );
}

#[test]
fn function_has_its_variables_in_the_first_block() {
    let mut function = Function::new();
    function.signature = Some(instruction_function(1, 2, 0, 3));
    function.add_parameter(instruction_function_parameter(4, 5));
    function.add_variable(
        6,
        instruction_variable(7, 6, spirv::StorageClass::Function, None),
    );
    let block = Block::new(8);
    assert!(!block.is_terminated());
    function.consume(block, instruction_branch(9));
    let mut last = Block::new(9);
    last.terminate(instruction_return());
    assert!(last.is_terminated());
    function.add_block(last);
    let mut words = Vec::new();
    function.to_words(&mut words);
    let mut expected = vec![
        first(5, spirv::Op::Function),
        1,
        2,
        0,
        3,
        first(3, spirv::Op::FunctionParameter),
        4,
        5,
    ];
    expected.extend(words_of(&instruction_label(8)));
    expected.extend(vec![first(4, spirv::Op::Variable), 7, 6, 7]);
    expected.extend(vec![first(2, spirv::Op::Branch), 9]);
    expected.extend(vec![first(2, spirv::Op::Label), 9]);
    expected.push(first(1, spirv::Op::Return));
    assert_eq!(words, expected);
}

//! The parts of a SPIR-V module and their order.

use crate::headers::magic_number;
use crate::ir::Header;
use crate::spv::function::Function;
use crate::spv::instruction::{
    encode, lemma_encode_add, lemma_encode_push, Instruction, InstructionView,
};
use crate::spv::words::Word;
use vstd::prelude::*;

verus! {

/// The words that a module begins with.
#[derive(Clone, Copy, Debug)]
pub struct PhysicalLayout {
    pub magic_number: Word,
    pub version: Word,
    pub generator: Word,
    pub bound: Word,
    pub instruction_schema: Word,
}

/// A version as a word: a byte for each of its numbers, the last one lowest.
pub open spec fn version_word(version: (u8, u8, u8)) -> Word {
    (0x1_0000 * version.0 + 0x100 * version.1 + version.2) as u32
}

impl PhysicalLayout {
    /// The first words of a module with header `header` in which no identifier is used yet.
    pub open spec fn initial(header: Header) -> PhysicalLayout {
        PhysicalLayout {
            magic_number: 0x0723_0203,
            version: version_word(header.version),
            generator: header.generator,
            bound: 0,
            instruction_schema: 0,
        }
    }

    /// The words in their order.
    pub open spec fn words(self) -> Seq<Word> {
        seq![
            self.magic_number,
            self.version,
            self.generator,
            self.bound,
            self.instruction_schema,
        ]
    }

    /// Whether the format version has a storage class for storage buffers: from 1.3 on.
    pub open spec fn has_storage_buffers(self) -> bool {
        self.version >= version_word((1, 3, 0))
    }

    pub fn new(header: &Header) -> (layout: Self)
        ensures
            layout == PhysicalLayout::initial(*header),
    {
        let version: Word = 0x1_0000 * (header.version.0 as u32) + 0x100 * (header.version.1 as u32)
            + header.version.2 as u32;
        PhysicalLayout {
            magic_number: magic_number(),
            version,
            generator: header.generator,
            bound: 0,
            instruction_schema: 0,
        }
    }

    pub fn supports_storage_buffers(&self) -> (supported: bool)
        ensures
            supported == self.has_storage_buffers(),
    {
        self.version >= 0x1_0300
    }

    /// Appends the words to `sink`.
    pub fn in_words(&self, sink: &mut Vec<Word>)
        ensures
            final(sink)@ == old(sink)@ + self.words(),
    {
        sink.push(self.magic_number);
        sink.push(self.version);
        sink.push(self.generator);
        sink.push(self.bound);
        sink.push(self.instruction_schema);
        assert(sink@ =~= old(sink)@ + self.words());
    }
}

/// A part of a module: instructions, held as words.
pub struct Section {
    words: Vec<Word>,
    instructions: Ghost<Seq<InstructionView>>,
}

impl View for Section {
    type V = Seq<InstructionView>;

    closed spec fn view(&self) -> Seq<InstructionView> {
        self.instructions@
    }
}

impl Section {
    #[verifier::type_invariant]
    closed spec fn faithful(self) -> bool {
        self.words@ == encode(self.instructions@)
    }

    pub fn new() -> (section: Self)
        ensures
            section@ == Seq::<InstructionView>::empty(),
    {
        assert(encode(Seq::empty()) =~= Seq::<Word>::empty());
        Section { words: Vec::new(), instructions: Ghost(Seq::empty()) }
    }

    /// Appends an instruction.
    pub fn push(&mut self, instruction: &Instruction)
        ensures
            final(self)@ == old(self)@.push(instruction@),
    {
        proof {
            use_type_invariant(&*self);
            lemma_encode_push(self.instructions@, instruction@);
        }
        let mut whole = Section::new();
        std::mem::swap(&mut whole, self);
        let ghost before = whole.instructions@;
        let mut words: Vec<Word> = whole.words;
        instruction.to_words(&mut words);
        *self = Section { words, instructions: Ghost(before.push(instruction@)) };
    }

    /// Appends the instructions of a function.
    pub fn push_function(&mut self, function: &Function)
        requires
            function@.signature is Some,
            function@.is_terminated(),
        ensures
            final(self)@ == old(self)@ + function@.instructions(),
    {
        proof {
            use_type_invariant(&*self);
            lemma_encode_add(self.instructions@, function@.instructions());
        }
        let mut whole = Section::new();
        std::mem::swap(&mut whole, self);
        let ghost before = whole.instructions@;
        let mut words: Vec<Word> = whole.words;
        function.to_words(&mut words);
        *self = Section { words, instructions: Ghost(before + function@.instructions()) };
    }

    /// Appends the words of the section to `sink`.
    pub fn in_words(&self, sink: &mut Vec<Word>)
        ensures
            final(sink)@ == old(sink)@ + encode(self@),
    {
        proof {
            use_type_invariant(&*self);
        }
        let ghost head = sink@;
        let mut i: usize = 0;
        while i < self.words.len()
            invariant
                i <= self.words@.len(),
                sink@ == head + self.words@.take(i as int),
            decreases self.words@.len() - i,
        {
            sink.push(self.words[i]);
            i = i + 1;
            assert(sink@ =~= head + self.words@.take(i as int));
        }
        assert(self.words@.take(i as int) =~= self.words@);
    }
}

/// What the parts of a module hold.
#[verifier::ext_equal]
pub struct LogicalLayoutView {
    pub capabilities: Seq<InstructionView>,
    pub extensions: Seq<InstructionView>,
    pub ext_inst_imports: Seq<InstructionView>,
    pub memory_model: Seq<InstructionView>,
    pub entry_points: Seq<InstructionView>,
    pub execution_modes: Seq<InstructionView>,
    pub debugs: Seq<InstructionView>,
    pub annotations: Seq<InstructionView>,
    pub declarations: Seq<InstructionView>,
    pub function_declarations: Seq<InstructionView>,
    pub function_definitions: Seq<InstructionView>,
}

impl LogicalLayoutView {
    /// No part holds anything.
    pub open spec fn empty() -> LogicalLayoutView {
        LogicalLayoutView {
            capabilities: Seq::empty(),
            extensions: Seq::empty(),
            ext_inst_imports: Seq::empty(),
            memory_model: Seq::empty(),
            entry_points: Seq::empty(),
            execution_modes: Seq::empty(),
            debugs: Seq::empty(),
            annotations: Seq::empty(),
            declarations: Seq::empty(),
            function_declarations: Seq::empty(),
            function_definitions: Seq::empty(),
        }
    }

    /// All instructions, part by part in the order that SPIR-V prescribes.
    pub open spec fn instructions(self) -> Seq<InstructionView> {
        self.capabilities + self.extensions + self.ext_inst_imports + self.memory_model
            + self.entry_points + self.execution_modes + self.debugs + self.annotations
            + self.declarations + self.function_declarations + self.function_definitions
    }
}

/// The parts of a module.
pub struct LogicalLayout {
    pub capabilities: Section,
    pub extensions: Section,
    pub ext_inst_imports: Section,
    pub memory_model: Section,
    pub entry_points: Section,
    pub execution_modes: Section,
    pub debugs: Section,
    pub annotations: Section,
    pub declarations: Section,
    pub function_declarations: Section,
    pub function_definitions: Section,
}

impl View for LogicalLayout {
    type V = LogicalLayoutView;

    open spec fn view(&self) -> LogicalLayoutView {
        LogicalLayoutView {
            capabilities: self.capabilities@,
            extensions: self.extensions@,
            ext_inst_imports: self.ext_inst_imports@,
            memory_model: self.memory_model@,
            entry_points: self.entry_points@,
            execution_modes: self.execution_modes@,
            debugs: self.debugs@,
            annotations: self.annotations@,
            declarations: self.declarations@,
            function_declarations: self.function_declarations@,
            function_definitions: self.function_definitions@,
        }
    }
}

impl LogicalLayout {
    pub fn new() -> (layout: Self)
        ensures
            layout@ == LogicalLayoutView::empty(),
    {
        LogicalLayout {
            capabilities: Section::new(),
            extensions: Section::new(),
            ext_inst_imports: Section::new(),
            memory_model: Section::new(),
            entry_points: Section::new(),
            execution_modes: Section::new(),
            debugs: Section::new(),
            annotations: Section::new(),
            declarations: Section::new(),
            function_declarations: Section::new(),
            function_definitions: Section::new(),
        }
    }

    /// Appends the words of all parts to `sink`.
    pub fn in_words(&self, sink: &mut Vec<Word>)
        ensures
            final(sink)@ == old(sink)@ + encode(self@.instructions()),
    {
        let ghost head = sink@;
        let ghost mut done = self.capabilities@;
        self.capabilities.in_words(sink);
        self.extensions.in_words(sink);
        proof {
            lemma_written(head, done, self.extensions@, sink@);
            done = done + self.extensions@;
        }
        self.ext_inst_imports.in_words(sink);
        proof {
            lemma_written(head, done, self.ext_inst_imports@, sink@);
            done = done + self.ext_inst_imports@;
        }
        self.memory_model.in_words(sink);
        proof {
            lemma_written(head, done, self.memory_model@, sink@);
            done = done + self.memory_model@;
        }
        self.entry_points.in_words(sink);
        proof {
            lemma_written(head, done, self.entry_points@, sink@);
            done = done + self.entry_points@;
        }
        self.execution_modes.in_words(sink);
        proof {
            lemma_written(head, done, self.execution_modes@, sink@);
            done = done + self.execution_modes@;
        }
        self.debugs.in_words(sink);
        proof {
            lemma_written(head, done, self.debugs@, sink@);
            done = done + self.debugs@;
        }
        self.annotations.in_words(sink);
        proof {
            lemma_written(head, done, self.annotations@, sink@);
            done = done + self.annotations@;
        }
        self.declarations.in_words(sink);
        proof {
            lemma_written(head, done, self.declarations@, sink@);
            done = done + self.declarations@;
        }
        self.function_declarations.in_words(sink);
        proof {
            lemma_written(head, done, self.function_declarations@, sink@);
            done = done + self.function_declarations@;
        }
        self.function_definitions.in_words(sink);
        proof {
            lemma_written(head, done, self.function_definitions@, sink@);
            done = done + self.function_definitions@;
        }
    }
}

/// What was written, and a part behind it.
proof fn lemma_written(
    head: Seq<Word>,
    done: Seq<InstructionView>,
    part: Seq<InstructionView>,
    words: Seq<Word>,
)
    requires
        words == head + encode(done) + encode(part),
    ensures
        words == head + encode(done + part),
{
    lemma_encode_add(done, part);
    assert(words =~= head + (encode(done) + encode(part)));
}

} // verus!

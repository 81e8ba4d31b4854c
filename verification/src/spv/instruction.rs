//! One SPIR-V instruction, and how it is written down in words.

use crate::headers::lemma_op_fits;
use crate::spv::words::Word;
use spirv_headers as spirv;
use vstd::prelude::*;

verus! {

/// What an instruction says.
#[verifier::ext_equal]
pub struct InstructionView {
    pub op: spirv::Op,
    pub type_id: Option<Word>,
    pub result_id: Option<Word>,
    pub operands: Seq<Word>,
}

/// The word that is there, if one is.
pub open spec fn optional(word: Option<Word>) -> Seq<Word> {
    match word {
        Some(word) => seq![word],
        None => Seq::empty(),
    }
}

impl InstructionView {
    /// The number of words that the instruction takes.
    pub open spec fn word_count(self) -> nat {
        1 + optional(self.type_id).len() + optional(self.result_id).len() + self.operands.len()
    }

    /// The first word: the word count in the upper half, the operation in the lower.
    pub open spec fn first_word(self) -> Word {
        ((self.word_count() as u32) << 16) | (self.op as u32)
    }

    /// The instruction in words.
    pub open spec fn words(self) -> Seq<Word> {
        seq![self.first_word()] + optional(self.type_id) + optional(self.result_id) + self.operands
    }

    /// The instruction with one more operand.
    pub open spec fn with(self, operand: Word) -> InstructionView {
        InstructionView { operands: self.operands.push(operand), ..self }
    }
}

/// A list of instructions in words, one after another.
pub open spec fn encode(instructions: Seq<InstructionView>) -> Seq<Word>
    decreases instructions.len(),
{
    if instructions.len() == 0 {
        Seq::empty()
    } else {
        encode(instructions.drop_last()) + instructions.last().words()
    }
}

/// Lists written one after the other are the words of the one followed by those of the other.
pub proof fn lemma_encode_add(a: Seq<InstructionView>, b: Seq<InstructionView>)
    ensures
        encode(a + b) == encode(a) + encode(b),
    decreases b.len(),
{
    if b.len() == 0 {
        assert(a + b =~= a);
        assert(encode(b) =~= Seq::empty());
        assert(encode(a) + encode(b) =~= encode(a));
    } else {
        lemma_encode_add(a, b.drop_last());
        assert((a + b).drop_last() =~= a + b.drop_last());
        assert((a + b).last() == b.last());
        assert(encode(a + b) =~= encode(a) + encode(b));
    }
}

/// The words of a list with one more instruction.
pub proof fn lemma_encode_push(list: Seq<InstructionView>, instruction: InstructionView)
    ensures
        encode(list.push(instruction)) == encode(list) + instruction.words(),
{
    assert(list.push(instruction).drop_last() =~= list);
}

/// The first word of an instruction of less than 65536 words gives its length and operation
/// back: the one in its upper half, the other in its lower.
pub proof fn law_first_word(instruction: InstructionView)
    requires
        instruction.word_count() < 0x1_0000,
    ensures
        instruction.first_word() >> 16 == instruction.word_count(),
        instruction.first_word() & 0xffff == instruction.op as u32,
        instruction.words().len() == instruction.word_count(),
        instruction.words()[0] == instruction.first_word(),
{
    lemma_op_fits(instruction.op);
    let count = instruction.word_count() as u32;
    let op = instruction.op as u32;
    assert(((count << 16) | op) >> 16 == count && ((count << 16) | op) & 0xffff == op)
        by (bit_vector)
        requires
            count < 0x1_0000,
            op < 0x1_0000,
    ;
}

/// The instructions of a list stand one behind the other, and the length in the first word of
/// each leads to the next: a reader that knows where one starts finds all that follow.
pub proof fn law_lengths_lead_on(list: Seq<InstructionView>, i: int)
    requires
        0 <= i < list.len(),
        list[i].word_count() < 0x1_0000,
    ensures
        ({
            let words = encode(list);
            let start = encode(list.take(i)).len();
            let next = encode(list.take(i + 1)).len();
            &&& next <= words.len()
            &&& next == start + (words[start as int] >> 16)
            &&& words[start as int] & 0xffff == list[i].op as u32
            &&& words.subrange(start as int, next as int) == list[i].words()
        }),
{
    let words = encode(list);
    let start = encode(list.take(i)).len();
    law_first_word(list[i]);
    assert(list.take(i + 1) =~= list.take(i).push(list[i]));
    lemma_encode_push(list.take(i), list[i]);
    assert(list =~= list.take(i + 1) + list.skip(i + 1));
    lemma_encode_add(list.take(i + 1), list.skip(i + 1));
    assert(words[start as int] == list[i].words()[0]);
    let next = encode(list.take(i + 1)).len();
    assert(words.subrange(start as int, next as int) =~= list[i].words());
}

/// One instruction.
#[derive(Debug)]
pub struct Instruction {
    op: spirv::Op,
    type_id: Option<Word>,
    result_id: Option<Word>,
    operands: Vec<Word>,
}

impl View for Instruction {
    type V = InstructionView;

    closed spec fn view(&self) -> InstructionView {
        InstructionView {
            op: self.op,
            type_id: self.type_id,
            result_id: self.result_id,
            operands: self.operands@,
        }
    }
}

impl Instruction {
    pub fn new(
        op: spirv::Op,
        type_id: Option<Word>,
        result_id: Option<Word>,
        operands: Vec<Word>,
    ) -> (instruction: Self)
        ensures
            instruction@ == (InstructionView { op, type_id, result_id, operands: operands@ }),
    {
        Instruction { op, type_id, result_id, operands }
    }

    /// The identifier that the instruction defines, if it defines one.
    pub fn result_id(&self) -> (id: Option<Word>)
        ensures
            id == self@.result_id,
    {
        self.result_id
    }

    /// Appends an operand.
    pub fn add_operand(&mut self, operand: Word)
        ensures
            final(self)@ == old(self)@.with(operand),
    {
        self.operands.push(operand);
    }

    /// Appends the instruction to `sink`.
    pub fn to_words(&self, sink: &mut Vec<Word>)
        ensures
            final(sink)@ == old(sink)@ + self@.words(),
    {
        let mut count: u128 = 1 + self.operands.len() as u128;
        if self.type_id.is_some() {
            count = count + 1;
        }
        if self.result_id.is_some() {
            count = count + 1;
        }
        sink.push(((count as u32) << 16) | (self.op as u32));
        if let Some(id) = self.type_id {
            sink.push(id);
        }
        if let Some(id) = self.result_id {
            sink.push(id);
        }
        let ghost head = sink@;
        let mut i: usize = 0;
        while i < self.operands.len()
            invariant
                i <= self.operands@.len(),
                sink@ == head + self.operands@.take(i as int),
            decreases self.operands@.len() - i,
        {
            sink.push(self.operands[i]);
            i = i + 1;
            assert(sink@ =~= head + self.operands@.take(i as int));
        }
        assert(self.operands@.take(i as int) =~= self.operands@);
        assert(sink@ =~= old(sink)@ + self@.words());
    }
}

/// What a list of instructions says.
pub open spec fn views(instructions: Seq<Instruction>) -> Seq<InstructionView> {
    instructions.map_values(|instruction: Instruction| instruction@)
}

pub proof fn lemma_views_push(instructions: Seq<Instruction>, instruction: Instruction)
    ensures
        views(instructions.push(instruction)) == views(instructions).push(instruction@),
{
    assert(views(instructions.push(instruction)) =~= views(instructions).push(instruction@));
}

} // verus!

//! Functions while they are being written.

use crate::spv::instruction::{
    encode, lemma_encode_add, lemma_encode_push, lemma_views_push, views, Instruction,
    InstructionView,
};
use crate::spv::instructions::{instruction_label, op_label};
use crate::spv::words::Word;
use spirv_headers as spirv;
use vstd::prelude::*;

verus! {

/// What a block holds.
#[verifier::ext_equal]
pub struct BlockView {
    pub label_id: Word,
    pub body: Seq<InstructionView>,
    /// The instruction that leaves the block, once it is known.
    pub termination: Option<InstructionView>,
}

impl BlockView {
    /// A block that holds nothing but its label.
    pub open spec fn start(label_id: Word) -> BlockView {
        BlockView { label_id, body: Seq::empty(), termination: None }
    }

    /// Appends an instruction.
    pub open spec fn emit(self, instruction: InstructionView) -> BlockView {
        BlockView { body: self.body.push(instruction), ..self }
    }

    /// Leaves the block by an instruction.
    pub open spec fn terminate(self, instruction: InstructionView) -> BlockView {
        BlockView { termination: Some(instruction), ..self }
    }

    /// The instructions of a block that is left by a known instruction. `variables` stand at
    /// its start.
    pub open spec fn instructions(self, variables: Seq<InstructionView>) -> Seq<InstructionView> {
        seq![op_label(self.label_id)] + variables + self.body + seq![self.termination->0]
    }
}

/// A part of a function in which control moves from each instruction to the next.
pub struct Block {
    label_id: Word,
    body: Vec<Instruction>,
    termination: Option<Instruction>,
}

impl View for Block {
    type V = BlockView;

    closed spec fn view(&self) -> BlockView {
        BlockView {
            label_id: self.label_id,
            body: views(self.body@),
            termination: match self.termination {
                Some(instruction) => Some(instruction@),
                None => None,
            },
        }
    }
}

impl Block {
    /// A block that holds nothing but its label.
    pub fn new(label_id: Word) -> (block: Self)
        ensures
            block@ == BlockView::start(label_id),
    {
        Block { label_id, body: Vec::new(), termination: None }
    }

    /// Appends an instruction.
    pub fn push(&mut self, instruction: Instruction)
        ensures
            final(self)@ == old(self)@.emit(instruction@),
    {
        proof {
            lemma_views_push(self.body@, instruction);
        }
        self.body.push(instruction);
    }

    /// Leaves the block by an instruction.
    pub fn terminate(&mut self, instruction: Instruction)
        ensures
            final(self)@ == old(self)@.terminate(instruction@),
    {
        self.termination = Some(instruction);
    }

    /// Whether it is known how the block is left.
    pub fn is_terminated(&self) -> (terminated: bool)
        ensures
            terminated == (self@.termination is Some),
    {
        self.termination.is_some()
    }

    /// Appends the instructions of the block to `sink`, with `variables` at its start.
    fn to_words(&self, variables: &Vec<LocalVariable>, sink: &mut Vec<Word>)
        requires
            self@.termination is Some,
        ensures
            final(sink)@ == old(sink)@ + encode(
                self@.instructions(variable_instructions(variables@)),
            ),
    {
        let ghost whole = self@.instructions(variable_instructions(variables@));
        let ghost start = seq![op_label(self@.label_id)];
        instruction_label(self.label_id).to_words(sink);
        proof {
            assert(start =~= Seq::<InstructionView>::empty().push(op_label(self@.label_id)));
            lemma_encode_push(Seq::empty(), op_label(self@.label_id));
            assert(sink@ =~= old(sink)@ + encode(start));
        }
        let ghost before = sink@;
        let mut i: usize = 0;
        proof {
            assert(variable_instructions(variables@.take(0)) =~= Seq::empty());
            assert(sink@ =~= before + encode(Seq::empty()));
        }
        while i < variables.len()
            invariant
                i <= variables@.len(),
                sink@ == before + encode(variable_instructions(variables@.take(i as int))),
            decreases variables@.len() - i,
        {
            variables[i].instruction.to_words(sink);
            proof {
                let done = variable_instructions(variables@.take(i as int));
                let next = variables@[i as int].instruction@;
                lemma_encode_push(done, next);
                assert(variable_instructions(variables@.take(i + 1)) =~= done.push(next));
                assert(sink@ =~= before + encode(done.push(next)));
            }
            i = i + 1;
        }
        let ghost declared = start + variable_instructions(variables@);
        proof {
            assert(variables@.take(i as int) =~= variables@);
            lemma_encode_add(start, variable_instructions(variables@));
            assert(sink@ =~= old(sink)@ + encode(declared));
        }
        list_to_words(&self.body, sink);
        let ghost filled = declared + self@.body;
        proof {
            lemma_encode_add(declared, self@.body);
            assert(sink@ =~= old(sink)@ + encode(filled));
        }
        if let Some(termination) = &self.termination {
            termination.to_words(sink);
            proof {
                lemma_encode_push(filled, termination@);
                assert(whole =~= filled.push(termination@));
                assert(sink@ =~= old(sink)@ + encode(whole));
            }
        }
    }
}

/// Appends a list of instructions to `sink`.
fn list_to_words(list: &Vec<Instruction>, sink: &mut Vec<Word>)
    ensures
        final(sink)@ == old(sink)@ + encode(views(list@)),
{
    let ghost before = sink@;
    let mut i: usize = 0;
    proof {
        assert(views(list@.take(0)) =~= Seq::empty());
        assert(sink@ =~= before + encode(Seq::empty()));
    }
    while i < list.len()
        invariant
            i <= list@.len(),
            sink@ == before + encode(views(list@.take(i as int))),
        decreases list@.len() - i,
    {
        list[i].to_words(sink);
        proof {
            let done = views(list@.take(i as int));
            lemma_encode_push(done, list@[i as int]@);
            assert(views(list@.take(i + 1)) =~= done.push(list@[i as int]@));
            assert(sink@ =~= before + encode(done.push(list@[i as int]@)));
        }
        i = i + 1;
    }
    assert(list@.take(i as int) =~= list@);
}

/// A local variable.
pub struct LocalVariable {
    pub id: Word,
    pub instruction: Instruction,
}

/// The declarations of local variables.
pub open spec fn variable_instructions(variables: Seq<LocalVariable>) -> Seq<InstructionView> {
    variables.map_values(|variable: LocalVariable| variable.instruction@)
}

/// What an expression was written as.
#[derive(Clone, Copy, Debug)]
pub enum RawExpression {
    /// The value of the expression.
    Value(Word),
    /// A pointer to the value, and where that is stored.
    Pointer(Word, spirv::StorageClass),
}

/// Where `continue` and `break` lead to.
#[derive(Clone, Copy, Debug)]
pub struct LoopContext {
    pub continuing_id: Option<Word>,
    pub break_id: Option<Word>,
}

impl LoopContext {
    /// Outside of loops.
    pub open spec fn outside() -> LoopContext {
        LoopContext { continuing_id: None, break_id: None }
    }

    /// Outside of loops.
    pub fn new() -> (context: Self)
        ensures
            context == LoopContext::outside(),
    {
        LoopContext { continuing_id: None, break_id: None }
    }
}

/// What a function holds. The local variables stand in the order of their handles.
#[verifier::ext_equal]
pub struct FunctionView {
    pub signature: Option<InstructionView>,
    pub parameters: Seq<InstructionView>,
    pub variables: Seq<(Word, InstructionView)>,
    pub blocks: Seq<BlockView>,
}

/// The instructions of blocks. `variables` stand at the start of the first one.
pub open spec fn block_instructions(
    blocks: Seq<BlockView>,
    variables: Seq<InstructionView>,
) -> Seq<InstructionView>
    decreases blocks.len(),
{
    if blocks.len() == 0 {
        Seq::empty()
    } else {
        block_instructions(blocks.drop_last(), variables) + blocks.last().instructions(
            if blocks.len() == 1 {
                variables
            } else {
                Seq::empty()
            },
        )
    }
}

impl FunctionView {
    /// A function of which nothing is known.
    pub open spec fn empty() -> FunctionView {
        FunctionView {
            signature: None,
            parameters: Seq::empty(),
            variables: Seq::empty(),
            blocks: Seq::empty(),
        }
    }

    /// Appends a block.
    pub open spec fn add(self, block: BlockView) -> FunctionView {
        FunctionView { blocks: self.blocks.push(block), ..self }
    }

    /// Whether it is known how every block is left.
    pub open spec fn is_terminated(self) -> bool {
        forall|i: int| 0 <= i < self.blocks.len() ==> (#[trigger] self.blocks[i]).termination is Some
    }

    /// Whether `later` is this function with more blocks, each of which is left by a known
    /// instruction.
    #[verifier::opaque]
    pub open spec fn gains_blocks(self, later: FunctionView) -> bool {
        &&& later.signature == self.signature
        &&& later.parameters == self.parameters
        &&& later.variables == self.variables
        &&& self.blocks.len() <= later.blocks.len()
        &&& forall|i: int|
            0 <= i < self.blocks.len() ==> #[trigger] later.blocks[i] == self.blocks[i]
        &&& forall|i: int|
            self.blocks.len() <= i < later.blocks.len() ==> (
            #[trigger] later.blocks[i]).termination is Some
    }

    /// The instructions of a function whose signature is known and whose blocks are left by
    /// known instructions.
    pub open spec fn instructions(self) -> Seq<InstructionView> {
        seq![self.signature->0] + self.parameters + block_instructions(
            self.blocks,
            self.variables.map_values(|variable: (Word, InstructionView)| variable.1),
        )
    }
}

pub proof fn lemma_gains_nothing(function: FunctionView)
    ensures
        function.gains_blocks(function),
{
    reveal(FunctionView::gains_blocks);
}

pub proof fn lemma_gains_block(a: FunctionView, b: FunctionView, block: BlockView)
    requires
        a.gains_blocks(b),
        block.termination is Some,
    ensures
        a.gains_blocks(b.add(block)),
{
    reveal(FunctionView::gains_blocks);
}

pub proof fn lemma_gains_more(a: FunctionView, b: FunctionView, c: FunctionView)
    requires
        a.gains_blocks(b),
        b.gains_blocks(c),
    ensures
        a.gains_blocks(c),
{
    reveal(FunctionView::gains_blocks);
}

/// A function while it is being written.
pub struct Function {
    pub signature: Option<Instruction>,
    pub parameters: Vec<Instruction>,
    pub variables: Vec<LocalVariable>,
    pub blocks: Vec<Block>,
}

impl View for Function {
    type V = FunctionView;

    open spec fn view(&self) -> FunctionView {
        FunctionView {
            signature: match self.signature {
                Some(instruction) => Some(instruction@),
                None => None,
            },
            parameters: views(self.parameters@),
            variables: self.variables@.map_values(
                |variable: LocalVariable| (variable.id, variable.instruction@),
            ),
            blocks: self.blocks@.map_values(|block: Block| block@),
        }
    }
}

impl Function {
    /// A function of which nothing is known.
    pub fn new() -> (function: Self)
        ensures
            function@ == FunctionView::empty(),
    {
        Function {
            signature: None,
            parameters: Vec::new(),
            variables: Vec::new(),
            blocks: Vec::new(),
        }
    }

    /// Appends a block.
    pub fn add_block(&mut self, block: Block)
        ensures
            final(self)@ == old(self)@.add(block@),
    {
        self.blocks.push(block);
        assert(self@.blocks =~= old(self)@.blocks.push(block@));
    }

    /// Appends a block that is left by `termination`.
    pub fn consume(&mut self, block: Block, termination: Instruction)
        ensures
            final(self)@ == old(self)@.add(block@.terminate(termination@)),
    {
        let mut block = block;
        block.terminate(termination);
        self.add_block(block);
    }

    /// Appends a parameter.
    pub fn add_parameter(&mut self, instruction: Instruction)
        ensures
            final(self)@ == (FunctionView {
                parameters: old(self)@.parameters.push(instruction@),
                ..old(self)@
            }),
    {
        proof {
            lemma_views_push(self.parameters@, instruction);
        }
        self.parameters.push(instruction);
    }

    /// Appends a local variable.
    pub fn add_variable(&mut self, id: Word, instruction: Instruction)
        ensures
            final(self)@ == (FunctionView {
                variables: old(self)@.variables.push((id, instruction@)),
                ..old(self)@
            }),
    {
        self.variables.push(LocalVariable { id, instruction });
        assert(self@.variables =~= old(self)@.variables.push((id, instruction@)));
    }

    /// Appends the instructions of the function to `sink`.
    pub fn to_words(&self, sink: &mut Vec<Word>)
        requires
            self@.signature is Some,
            self@.is_terminated(),
        ensures
            final(sink)@ == old(sink)@ + encode(self@.instructions()),
    {
        let ghost variables = variable_instructions(self.variables@);
        let ghost start = seq![self@.signature->0];
        if let Some(signature) = &self.signature {
            signature.to_words(sink);
        }
        proof {
            assert(start =~= Seq::<InstructionView>::empty().push(self@.signature->0));
            lemma_encode_push(Seq::empty(), self@.signature->0);
            assert(sink@ =~= old(sink)@ + encode(start));
        }
        list_to_words(&self.parameters, sink);
        let ghost head = start + self@.parameters;
        proof {
            lemma_encode_add(start, self@.parameters);
            assert(sink@ =~= old(sink)@ + encode(head));
        }
        let ghost before = sink@;
        let no_variables: Vec<LocalVariable> = Vec::new();
        assert(variable_instructions(no_variables@) =~= Seq::empty());
        let mut i: usize = 0;
        proof {
            assert(block_instructions(self@.blocks.take(0), variables) =~= Seq::empty());
            assert(sink@ =~= before + encode(Seq::empty()));
        }
        while i < self.blocks.len()
            invariant
                i <= self.blocks@.len(),
                self@.is_terminated(),
                variables == variable_instructions(self.variables@),
                variable_instructions(no_variables@) == Seq::<InstructionView>::empty(),
                sink@ == before + encode(
                    block_instructions(self@.blocks.take(i as int), variables),
                ),
            decreases self.blocks@.len() - i,
        {
            assert(self@.blocks[i as int] == self.blocks@[i as int]@);
            if i == 0 {
                self.blocks[i].to_words(&self.variables, sink);
            } else {
                self.blocks[i].to_words(&no_variables, sink);
            }
            proof {
                let done = block_instructions(self@.blocks.take(i as int), variables);
                let block = self@.blocks[i as int].instructions(
                    if i == 0 {
                        variables
                    } else {
                        Seq::empty()
                    },
                );
                lemma_encode_add(done, block);
                assert(self@.blocks.take(i + 1).drop_last() =~= self@.blocks.take(i as int));
                assert(block_instructions(self@.blocks.take(i + 1), variables) == done + block);
                assert(sink@ =~= before + encode(done + block));
            }
            i = i + 1;
        }
        proof {
            assert(self@.blocks.take(i as int) =~= self@.blocks);
            assert(self@.variables.map_values(|variable: (Word, InstructionView)| variable.1)
                =~= variables);
            lemma_encode_add(head, block_instructions(self@.blocks, variables));
            assert(sink@ =~= old(sink)@ + encode(self@.instructions()));
        }
    }
}

} // verus!

//! That what is written can be read back.

use crate::ir::Header;
use crate::spv::function::{block_instructions, BlockView, FunctionView};
use crate::spv::instruction::{encode, InstructionView};
use crate::spv::layout::{LogicalLayoutView, PhysicalLayout};
use crate::spv::model::WriterView;
use crate::spv::words::Word;
use spirv_headers as spirv;
use vstd::prelude::*;

verus! {

/// How many words stand between the first word of an instruction and its operands.
pub open spec fn in_front(instruction: InstructionView) -> int {
    let with_type: int = if instruction.type_id is Some {
        1
    } else {
        0
    };
    let with_result: int = if instruction.result_id is Some {
        1
    } else {
        0
    };
    with_type + with_result
}

/// The words of an instruction give its type, its result and its operands back, in this order.
pub proof fn law_instructions_are_read_back(instruction: InstructionView)
    ensures
        ({
            let words = instruction.words();
            let n = in_front(instruction);
            &&& words.len() == 1 + n + instruction.operands.len()
            &&& instruction.type_id matches Some(id) ==> words[1] == id
            &&& instruction.result_id matches Some(id) ==> words[n] == id
            &&& words.subrange(1 + n, words.len() as int) == instruction.operands
        }),
{
    let words = instruction.words();
    let n = in_front(instruction);
    assert(words.subrange(1 + n, words.len() as int) =~= instruction.operands);
}

/// A module begins with the number by which SPIR-V is known, the version with a byte for each of
/// its numbers, the generator, the bound and a zero. Its instructions follow.
pub proof fn law_modules_begin_with_their_header(w: WriterView, header: Header)
    requires
        w.physical_layout == (PhysicalLayout {
            bound: w.physical_layout.bound,
            ..PhysicalLayout::initial(header)
        }),
    ensures
        ({
            let words = w.words();
            let version = words[1] as int;
            &&& words.len() >= 5
            &&& words[0] == 0x0723_0203
            &&& version / 0x1_0000 == header.version.0
            &&& version / 0x100 % 0x100 == header.version.1
            &&& version % 0x100 == header.version.2
            &&& words[2] == header.generator
            &&& words[3] == w.physical_layout.bound
            &&& words[4] == 0
            &&& words.subrange(5, words.len() as int) == encode(w.logical_layout.instructions())
        }),
{
    let words = w.words();
    assert(words.subrange(5, words.len() as int) =~= encode(w.logical_layout.instructions()));
    let major = header.version.0 as int;
    let minor = header.version.1 as int;
    let patch = header.version.2 as int;
    let version = 0x1_0000 * major + 0x100 * minor + patch;
    assert(words[1] == version);
    assert(version / 0x1_0000 == major);
    assert(version / 0x100 == 0x100 * major + minor);
}

/// The parts of a module come in the order that readers of SPIR-V expect: what it needs, what it
/// imports, the memory model, the entry points and their modes, names, decorations, declarations,
/// and functions.
pub proof fn law_parts_come_in_order(layout: LogicalLayoutView)
    ensures
        ({
            let list = layout.instructions();
            let a = layout.capabilities.len() as int;
            let b = a + layout.extensions.len();
            let c = b + layout.ext_inst_imports.len();
            let d = c + layout.memory_model.len();
            let e = d + layout.entry_points.len();
            let f = e + layout.execution_modes.len();
            let g = f + layout.debugs.len();
            let h = g + layout.annotations.len();
            let i = h + layout.declarations.len();
            let j = i + layout.function_declarations.len();
            let k = j + layout.function_definitions.len();
            &&& list.len() == k
            &&& list.subrange(0, a) == layout.capabilities
            &&& list.subrange(a, b) == layout.extensions
            &&& list.subrange(b, c) == layout.ext_inst_imports
            &&& list.subrange(c, d) == layout.memory_model
            &&& list.subrange(d, e) == layout.entry_points
            &&& list.subrange(e, f) == layout.execution_modes
            &&& list.subrange(f, g) == layout.debugs
            &&& list.subrange(g, h) == layout.annotations
            &&& list.subrange(h, i) == layout.declarations
            &&& list.subrange(i, j) == layout.function_declarations
            &&& list.subrange(j, k) == layout.function_definitions
        }),
{
}

/// The declarations of local variables.
pub open spec fn declared(function: FunctionView) -> Seq<InstructionView> {
    Seq::new(function.variables.len(), |i: int| function.variables[i].1)
}

/// Where the `i`-th block of a function starts among the blocks' instructions: behind the ones in
/// front of it, each of which has a label and an instruction that leaves it, and the first of
/// which holds the local variables.
pub open spec fn block_start(blocks: Seq<BlockView>, variables: nat, i: nat) -> int
    decreases i,
{
    if i == 0 {
        0
    } else {
        block_start(blocks, variables, (i - 1) as nat) + 2 + blocks[i - 1].body.len() + if i == 1 {
            variables as int
        } else {
            0
        }
    }
}

proof fn lemma_blocks(blocks: Seq<BlockView>, variables: Seq<InstructionView>, i: nat)
    requires
        i < blocks.len(),
        forall|k: int| 0 <= k < blocks.len() ==> (#[trigger] blocks[k]).termination is Some,
    ensures
        ({
            let list = block_instructions(blocks, variables);
            let start = block_start(blocks, variables.len(), i);
            let next = block_start(blocks, variables.len(), i + 1);
            let first = if i == 0 {
                variables
            } else {
                Seq::empty()
            };
            &&& 0 <= start < next <= list.len()
            &&& list.subrange(start, next) == blocks[i as int].instructions(first)
            &&& list.len() == block_start(blocks, variables.len(), blocks.len())
        }),
    decreases blocks.len(),
{
    let list = block_instructions(blocks, variables);
    let shorter = blocks.drop_last();
    let front = block_instructions(shorter, variables);
    let n = (blocks.len() - 1) as nat;
    lemma_starts(shorter, blocks, variables.len(), n);
    if n > 0 {
        lemma_blocks(shorter, variables, (n - 1) as nat);
    }
    let first = if n == 0 {
        variables
    } else {
        Seq::empty()
    };
    let own = blocks.last().instructions(first);
    assert(list == front + own);
    assert(front.len() == block_start(blocks, variables.len(), n));
    assert(own.len() == 2 + first.len() + blocks.last().body.len());
    if i < n {
        lemma_blocks(shorter, variables, i);
        lemma_starts(shorter, blocks, variables.len(), i);
        lemma_starts(shorter, blocks, variables.len(), i + 1);
        let start = block_start(blocks, variables.len(), i);
        let next = block_start(blocks, variables.len(), i + 1);
        assert(list.subrange(start, next) =~= front.subrange(start, next));
    } else {
        assert(list.subrange(front.len() as int, list.len() as int) =~= own);
    }
}

proof fn lemma_starts(a: Seq<BlockView>, b: Seq<BlockView>, variables: nat, i: nat)
    requires
        i <= a.len() <= b.len(),
        forall|k: int| 0 <= k < a.len() ==> #[trigger] a[k] == b[k],
    ensures
        block_start(a, variables, i) == block_start(b, variables, i),
    decreases i,
{
    if i > 0 {
        lemma_starts(a, b, variables, (i - 1) as nat);
        assert(a[i - 1] == b[i - 1]);
    }
}

/// The instructions of a function give it back: its head, its parameters, and then its blocks one
/// after the other. A block begins with its label and ends with the instruction that leaves it;
/// the first one holds the local variables in front of its instructions.
pub proof fn law_functions_are_spelled_out(function: FunctionView, i: nat)
    requires
        i < function.blocks.len(),
        forall|k: int|
            0 <= k < function.blocks.len() ==> (#[trigger] function.blocks[k]).termination is Some,
    ensures
        ({
            let list = function.instructions();
            let n = function.parameters.len() as int;
            let variables = declared(function);
            let v: int = if i == 0 {
                variables.len() as int
            } else {
                0
            };
            let block = function.blocks[i as int];
            let start = 1 + n + block_start(function.blocks, variables.len(), i);
            let behind = start + 1 + v;
            let end = behind + block.body.len();
            &&& list[0] == function.signature->0
            &&& list.subrange(1, 1 + n) == function.parameters
            &&& 1 + n <= start && end < list.len()
            &&& list[start].op == spirv::Op::Label
            &&& list[start].result_id == Some(block.label_id)
            &&& i == 0 ==> start == 1 + n && list.subrange(start + 1, behind) == variables
            &&& list.subrange(behind, end) == block.body
            &&& list[end] == block.termination->0
            &&& end + 1 == 1 + n + block_start(function.blocks, variables.len(), i + 1)
            &&& i + 1 == function.blocks.len() ==> list.len() == end + 1
        }),
{
    let list = function.instructions();
    let n = function.parameters.len() as int;
    let variables = function.variables.map_values(
        |variable: (Word, InstructionView)| variable.1,
    );
    assert(variables =~= declared(function));
    lemma_blocks(function.blocks, variables, i);
    let inner = block_instructions(function.blocks, variables);
    let head = seq![function.signature->0] + function.parameters;
    assert(list == head + inner);
    assert(list.subrange(1, 1 + n) =~= function.parameters);
    let block = function.blocks[i as int];
    let first = if i == 0 {
        variables
    } else {
        Seq::empty()
    };
    let own = block.instructions(first);
    let s = block_start(function.blocks, variables.len(), i);
    let e = block_start(function.blocks, variables.len(), i + 1);
    let start = 1 + n + s;
    assert(own.len() == 2 + first.len() + block.body.len());
    let part = list.subrange(start, start + own.len());
    assert(part =~= own) by {
        assert(part =~= inner.subrange(s, e));
    }
    let a = 1 + first.len() as int;
    let behind = start + a;
    let end = behind + block.body.len();
    assert(part[0] == list[start]);
    assert(list.subrange(behind, end) =~= part.subrange(a, a + block.body.len()));
    assert(own.subrange(a, a + block.body.len()) =~= block.body);
    assert(part[own.len() - 1] == list[start + (own.len() - 1)]);
    assert(own[own.len() - 1] == block.termination->0);
    if i == 0 {
        assert(list.subrange(start + 1, behind) =~= part.subrange(1, a));
        assert(own.subrange(1, a) =~= variables);
    }
}

} // verus!

//! Where control moves in a function.

use crate::arena::Handle;
use crate::ir::{Expression, Function as IrFunction, Module, Statement};
use crate::spv::function::{BlockView, FunctionView, LoopContext};
use crate::spv::instruction::InstructionView;
use crate::spv::growth_statements::{
    lemma_expression_grows, lemma_expression_pointer_grows, lemma_signature_grows,
};
use crate::spv::instructions::op_branch;
use crate::spv::model::{Outcome, WriterView};
use crate::spv::statements::{closed_block, draft, Draft};
use crate::spv::words::Word;
use spirv_headers as spirv;
use vstd::prelude::*;

verus! {

/// Whether an instruction moves control to the block labeled `id`.
pub open spec fn leads_to(instruction: InstructionView, id: Word) -> bool {
    ||| instruction.op == spirv::Op::Branch && instruction.operands.len() > 0
        && instruction.operands[0] == id
    ||| instruction.op == spirv::Op::BranchConditional && instruction.operands.len() > 2 && (
    instruction.operands[1] == id || instruction.operands[2] == id)
}

/// Whether control moves from a block to the one labeled `id`.
pub open spec fn block_leads_to(block: BlockView, id: Word) -> bool {
    block.termination is Some && leads_to(block.termination->0, id)
}

/// Whether one of the blocks from the `n`-th on is labeled `id`.
pub open spec fn is_label(blocks: Seq<BlockView>, n: nat, id: Word) -> bool {
    exists|i: int| n <= i < blocks.len() && (#[trigger] blocks[i]).label_id == id
}

/// Whether the blocks from the `n`-th on lead only to one another and to `exits`.
pub open spec fn leads_within(blocks: Seq<BlockView>, n: nat, exits: Set<Word>) -> bool {
    forall|i: int, id: Word|
        n <= i < blocks.len() && #[trigger] block_leads_to(blocks[i], id) ==> is_label(
            blocks,
            n,
            id,
        ) || exits.contains(id)
}

/// One block, or none.
pub open spec fn exit_set(exit_id: Option<Word>) -> Set<Word> {
    match exit_id {
        Some(id) => set![id],
        None => Set::empty(),
    }
}

/// Where `continue` and `break` lead to.
pub open spec fn context_set(context: LoopContext) -> Set<Word> {
    exit_set(context.continuing_id).union(exit_set(context.break_id))
}

/// Whether `later` is `blocks` with more blocks.
pub open spec fn is_start(blocks: Seq<BlockView>, later: Seq<BlockView>) -> bool {
    blocks.len() <= later.len() && forall|i: int|
        0 <= i < blocks.len() ==> #[trigger] later[i] == blocks[i]
}

proof fn lemma_label_stays(a: Seq<BlockView>, b: Seq<BlockView>, n: nat, id: Word)
    requires
        is_start(a, b),
        is_label(a, n, id),
    ensures
        is_label(b, n, id),
{
    let i = choose|i: int| n <= i < a.len() && (#[trigger] a[i]).label_id == id;
    assert(b[i].label_id == id);
}

proof fn lemma_label_before(blocks: Seq<BlockView>, n: nat, m: nat, id: Word)
    requires
        n <= m,
        is_label(blocks, m, id),
    ensures
        is_label(blocks, n, id),
{
    let i = choose|i: int| m <= i < blocks.len() && (#[trigger] blocks[i]).label_id == id;
    assert(blocks[i].label_id == id);
}

/// More blocks, behind others that lead to `exits` and to blocks that come now.
proof fn lemma_leads_on(
    a: Seq<BlockView>,
    b: Seq<BlockView>,
    n: nat,
    before: Set<Word>,
    after: Set<Word>,
    exits: Set<Word>,
)
    requires
        n <= a.len(),
        is_start(a, b),
        leads_within(a, n, before),
        leads_within(b, a.len(), after),
        forall|id: Word| #[trigger] before.contains(id) ==> is_label(b, n, id) || exits.contains(id),
        forall|id: Word| #[trigger] after.contains(id) ==> is_label(b, n, id) || exits.contains(id),
    ensures
        leads_within(b, n, exits),
{
    assert forall|i: int, id: Word|
        n <= i < b.len() && #[trigger] block_leads_to(b[i], id) implies is_label(b, n, id)
        || exits.contains(id) by {
        if i < a.len() {
            assert(block_leads_to(a[i], id));
            if is_label(a, n, id) {
                lemma_label_stays(a, b, n, id);
            } else {
                assert(before.contains(id));
            }
        } else {
            if is_label(b, a.len(), id) {
                lemma_label_before(b, n, a.len(), id);
            } else {
                assert(after.contains(id));
            }
        }
    }
}

/// One more block.
proof fn lemma_leads_by_block(
    blocks: Seq<BlockView>,
    n: nat,
    before: Set<Word>,
    block: BlockView,
    exits: Set<Word>,
)
    requires
        n <= blocks.len(),
        leads_within(blocks, n, before),
        forall|id: Word| #[trigger] before.contains(id) ==> id == block.label_id || exits.contains(id),
        forall|id: Word| #[trigger] block_leads_to(block, id) ==> exits.contains(id),
    ensures
        leads_within(blocks.push(block), n, exits),
        is_label(blocks.push(block), n, block.label_id),
{
    let more = blocks.push(block);
    assert(more[blocks.len() as int].label_id == block.label_id);
    assert forall|i: int, id: Word|
        n <= i < more.len() && #[trigger] block_leads_to(more[i], id) implies is_label(more, n, id)
        || exits.contains(id) by {
        if i < blocks.len() {
            assert(block_leads_to(blocks[i], id));
            if is_label(blocks, n, id) {
                lemma_label_stays(blocks, more, n, id);
            }
        }
    }
}

/// What holds when statements were appended to a block: the blocks that were added lead to one
/// another, to the block that control is in at the end, and out of loops.
pub open spec fn statements_lead(
    before: Seq<BlockView>,
    block: BlockView,
    after: Seq<BlockView>,
    next: BlockView,
    context: LoopContext,
) -> bool {
    &&& is_start(before, after)
    &&& leads_within(after, before.len(), context_set(context).insert(next.label_id))
    &&& is_label(after, before.len(), block.label_id) || next.label_id == block.label_id
    &&& forall|id: Word| #[trigger]
        block_leads_to(next, id) ==> context_set(context).contains(id)
}

/// What holds when statements were written as blocks of their own.
pub open spec fn blocks_lead(
    before: Seq<BlockView>,
    label_id: Word,
    after: Seq<BlockView>,
    exit_id: Option<Word>,
    context: LoopContext,
) -> bool {
    &&& is_start(before, after)
    &&& leads_within(after, before.len(), context_set(context).union(exit_set(exit_id)))
    &&& is_label(after, before.len(), label_id)
}

pub proof fn lemma_block_leads(
    d: Draft,
    module: Module,
    ir_function: IrFunction,
    label_id: Word,
    list: Seq<Statement>,
    exit_id: Option<Word>,
    context: LoopContext,
)
    ensures
        d.block(module, ir_function, label_id, list, exit_id, context) matches Outcome::Done(e, _)
            ==> blocks_lead(d.function.blocks, label_id, e.function.blocks, exit_id, context),
    decreases list, 1nat,
{
    let start = BlockView::start(label_id);
    lemma_statements_lead(d, module, ir_function, start, list, context);
    if let Outcome::Done(e, next) = d.statements(module, ir_function, start, list, context) {
        let exits = context_set(context).union(exit_set(exit_id));
        let last = closed_block(next, exit_id);
        let n = d.function.blocks.len();
        assert forall|id: Word| #[trigger] block_leads_to(last, id) implies exits.contains(id) by {
            if next.termination is Some {
                assert(block_leads_to(next, id));
            }
        }
        lemma_leads_by_block(
            e.function.blocks,
            n,
            context_set(context).insert(next.label_id),
            last,
            exits,
        );
        let after = e.function.blocks.push(last);
        if is_label(e.function.blocks, n, label_id) {
            lemma_label_stays(e.function.blocks, after, n, label_id);
        }
    }
}

proof fn lemma_statements_lead(
    d: Draft,
    module: Module,
    ir_function: IrFunction,
    block: BlockView,
    list: Seq<Statement>,
    context: LoopContext,
)
    requires
        forall|id: Word| #[trigger]
            block_leads_to(block, id) ==> context_set(context).contains(id),
    ensures
        d.statements(module, ir_function, block, list, context) matches Outcome::Done(e, next)
            ==> statements_lead(d.function.blocks, block, e.function.blocks, next, context),
    decreases list, 0nat,
{
    if list.len() > 0 && block.termination is None {
        lemma_statement_leads(d, module, ir_function, block, list[0], context);
        if let Outcome::Done(e, next) = d.statement(module, ir_function, block, list[0], context) {
            let rest = list.subrange(1, list.len() as int);
            lemma_statements_lead(e, module, ir_function, next, rest, context);
            if let Outcome::Done(f, last) = e.statements(
                module,
                ir_function,
                next,
                rest,
                context,
            ) {
                let a = d.function.blocks;
                let b = e.function.blocks;
                let c = f.function.blocks;
                let exits = context_set(context).insert(last.label_id);
                if is_label(c, b.len(), next.label_id) {
                    lemma_label_before(c, a.len(), b.len(), next.label_id);
                }
                lemma_leads_on(
                    b,
                    c,
                    a.len(),
                    context_set(context).insert(next.label_id),
                    exits,
                    exits,
                );
                if is_label(b, a.len(), block.label_id) {
                    lemma_label_stays(b, c, a.len(), block.label_id);
                }
            }
        }
    }
}

/// Two steps that write blocks, behind blocks that lead to both and to `merge_id`.
proof fn lemma_pair_leads(
    a: Seq<BlockView>,
    b: Seq<BlockView>,
    c: Seq<BlockView>,
    e: Seq<BlockView>,
    before: Set<Word>,
    first: (Word, Option<Word>, LoopContext),
    second: (Word, Option<Word>, LoopContext),
    exits: Set<Word>,
)
    requires
        is_start(a, b),
        leads_within(b, a.len(), before),
        blocks_lead(b, first.0, c, first.1, first.2),
        blocks_lead(c, second.0, e, second.1, second.2),
        forall|id: Word| #[trigger]
            before.contains(id) ==> id == first.0 || id == second.0 || exits.contains(id),
        forall|id: Word| #[trigger]
            context_set(first.2).union(exit_set(first.1)).contains(id) ==> id == second.0
                || exits.contains(id) || is_label(b, a.len(), id),
        forall|id: Word| #[trigger]
            context_set(second.2).union(exit_set(second.1)).contains(id) ==> exits.contains(id)
                || is_label(b, a.len(), id),
    ensures
        is_start(a, e),
        leads_within(e, a.len(), exits),
{
    let n = a.len();
    let one = context_set(first.2).union(exit_set(first.1));
    let two = context_set(second.2).union(exit_set(second.1));
    let middle = exits.insert(second.0);
    lemma_label_before(c, n, b.len(), first.0);
    lemma_label_before(e, n, c.len(), second.0);
    assert forall|id: Word| #[trigger] one.contains(id) implies is_label(c, n, id)
        || middle.contains(id) by {
        if is_label(b, n, id) {
            lemma_label_stays(b, c, n, id);
        }
    }
    lemma_leads_on(b, c, n, before, one, middle);
    assert forall|id: Word| #[trigger] two.contains(id) implies is_label(e, n, id)
        || exits.contains(id) by {
        if is_label(b, n, id) {
            lemma_label_stays(b, c, n, id);
            lemma_label_stays(c, e, n, id);
        }
    }
    lemma_leads_on(c, e, n, middle, two, exits);
}

proof fn lemma_fork_leads(
    d: Draft,
    module: Module,
    ir_function: IrFunction,
    block: BlockView,
    condition: Handle<Expression>,
)
    ensures
        d.fork(module, ir_function, block, condition) matches Outcome::Done(e, ids) ==> {
            let n = d.function.blocks.len();
            &&& is_start(d.function.blocks, e.function.blocks)
            &&& leads_within(e.function.blocks, n, set![ids.0, ids.1])
            &&& is_label(e.function.blocks, n, block.label_id)
        },
{
    reveal(Draft::fork);
    lemma_expression_grows(d, module, ir_function, block, condition);
    if let Outcome::Done(e, ids) = d.fork(module, ir_function, block, condition) {
        let a = d.function.blocks;
        let b = e.function.blocks;
        assert(b == a.push(b.last()));
        assert(leads_within(a, a.len(), Set::empty()));
        assert(b.last().termination->0.operands.len() == 3);
        lemma_leads_by_block(a, a.len(), Set::empty(), b.last(), set![ids.0, ids.1]);
    }
}

proof fn lemma_enter_loop_leads(d: Draft, block: BlockView)
    ensures
        d.enter_loop(block) matches Outcome::Done(e, ids) ==> {
            let n = d.function.blocks.len();
            &&& is_start(d.function.blocks, e.function.blocks)
            &&& leads_within(e.function.blocks, n, set![ids.2])
            &&& is_label(e.function.blocks, n, ids.0)
            &&& is_label(e.function.blocks, n, block.label_id)
        },
{
    reveal(Draft::enter_loop);
    if let Outcome::Done(e, ids) = d.enter_loop(block) {
        let a = d.function.blocks;
        let c = e.function.blocks;
        let b = a.push(block.terminate(op_branch(ids.0)));
        assert(c == b.push(c.last()));
        assert(leads_within(a, a.len(), Set::empty()));
        lemma_leads_by_block(a, a.len(), Set::empty(), b.last(), set![ids.0]);
        lemma_leads_by_block(b, a.len(), set![ids.0], c.last(), set![ids.2]);
        lemma_label_stays(b, c, a.len(), block.label_id);
    }
}

proof fn lemma_statement_leads(
    d: Draft,
    module: Module,
    ir_function: IrFunction,
    block: BlockView,
    statement: Statement,
    context: LoopContext,
)
    requires
        block.termination is None,
    ensures
        d.statement(module, ir_function, block, statement, context) matches Outcome::Done(e, next)
            ==> statements_lead(d.function.blocks, block, e.function.blocks, next, context),
    decreases statement, 2nat,
{
    let a = d.function.blocks;
    let n = a.len();
    match statement {
        Statement::Block(list) => {
            if let Outcome::Done(d1, scope_id) = d.generate_id() {
                let left = block.terminate(op_branch(scope_id));
                let b = a.push(left);
                if let Outcome::Done(d2, merge_id) = d1.add(left).generate_id() {
                    let exit_id = Some(merge_id);
                    lemma_block_leads(d2, module, ir_function, scope_id, list@, exit_id, context);
                    let step = d2.block(module, ir_function, scope_id, list@, exit_id, context);
                    if let Outcome::Done(e, _) = step {
                        let c = e.function.blocks;
                        let exits = context_set(context).insert(merge_id);
                        lemma_leads_by_block(a, n, Set::empty(), left, set![scope_id]);
                        lemma_label_before(c, n, b.len(), scope_id);
                        lemma_leads_on(
                            b,
                            c,
                            n,
                            set![scope_id],
                            context_set(context).union(exit_set(exit_id)),
                            exits,
                        );
                        lemma_label_stays(b, c, n, block.label_id);
                    }
                }
            }
        },
        Statement::If { condition, accept, reject } => {
            lemma_fork_leads(d, module, ir_function, block, condition);
            if let Outcome::Done(d1, ids) = d.fork(module, ir_function, block, condition) {
                let exit_id = Some(ids.2);
                let one = d1.block(module, ir_function, ids.0, accept@, exit_id, context);
                lemma_block_leads(d1, module, ir_function, ids.0, accept@, exit_id, context);
                if let Outcome::Done(d2, _) = one {
                    let two = d2.block(module, ir_function, ids.1, reject@, exit_id, context);
                    lemma_block_leads(d2, module, ir_function, ids.1, reject@, exit_id, context);
                    if let Outcome::Done(e, _) = two {
                        lemma_pair_leads(
                            a,
                            d1.function.blocks,
                            d2.function.blocks,
                            e.function.blocks,
                            set![ids.0, ids.1],
                            (ids.0, exit_id, context),
                            (ids.1, exit_id, context),
                            context_set(context).insert(ids.2),
                        );
                        lemma_label_stays(
                            d1.function.blocks,
                            e.function.blocks,
                            n,
                            block.label_id,
                        );
                    }
                }
            }
        },
        Statement::Loop { body, continuing } => {
            lemma_enter_loop_leads(d, block);
            if let Outcome::Done(d1, ids) = d.enter_loop(block) {
                let inside = LoopContext { continuing_id: Some(ids.3), break_id: Some(ids.1) };
                let after = LoopContext { continuing_id: None, break_id: Some(ids.1) };
                let one = d1.block(module, ir_function, ids.2, body@, Some(ids.3), inside);
                lemma_block_leads(d1, module, ir_function, ids.2, body@, Some(ids.3), inside);
                if let Outcome::Done(d2, _) = one {
                    let again = Some(ids.0);
                    let two = d2.block(
                        module,
                        ir_function,
                        ids.3,
                        continuing@,
                        again,
                        after,
                    );
                    lemma_block_leads(
                        d2,
                        module,
                        ir_function,
                        ids.3,
                        continuing@,
                        again,
                        after,
                    );
                    if let Outcome::Done(e, _) = two {
                        lemma_pair_leads(
                            a,
                            d1.function.blocks,
                            d2.function.blocks,
                            e.function.blocks,
                            set![ids.2],
                            (ids.2, Some(ids.3), inside),
                            (ids.3, again, after),
                            context_set(context).insert(ids.1),
                        );
                        lemma_label_stays(
                            d1.function.blocks,
                            e.function.blocks,
                            n,
                            block.label_id,
                        );
                    }
                }
            }
        },
        Statement::Return { value: Some(value) } => {
            lemma_expression_grows(d, module, ir_function, block, value);
        },
        Statement::Store { pointer, value } => {
            lemma_store_leads(d, module, ir_function, block, pointer, value);
        },
        _ => {},
    }
}

pub proof fn lemma_store_leads(
    d: Draft,
    module: Module,
    ir_function: IrFunction,
    block: BlockView,
    pointer: Handle<Expression>,
    value: Handle<Expression>,
)
    ensures
        d.store(module, ir_function, block, pointer, value) matches Outcome::Done(e, next) ==> {
            &&& e.function == d.function
            &&& next.label_id == block.label_id
            &&& next.termination == block.termination
        },
{
    reveal(Draft::store);
    lemma_expression_pointer_grows(d, module, ir_function, block, pointer);
    if let Outcome::Done(d1, target) = d.expression_pointer(module, ir_function, block, pointer) {
        lemma_expression_grows(d1, module, ir_function, target.0, value);
    }
}

/// Control stays in a function: each branch in it leads to one of its blocks.
pub proof fn law_branches_lead_to_blocks(w: WriterView, module: Module, ir_function: IrFunction)
    ensures
        draft(w, FunctionView::empty()).function(module, ir_function) matches Outcome::Done(e, _)
            ==> forall|i: int, id: Word|
            0 <= i < e.function.blocks.len() && #[trigger] block_leads_to(
                e.function.blocks[i],
                id,
            ) ==> exists|k: int|
                0 <= k < e.function.blocks.len() && (#[trigger] e.function.blocks[k]).label_id
                    == id,
{
    let d = draft(w, FunctionView::empty());
    lemma_signature_grows(d, module, ir_function);
    if let Outcome::Done(d1, _) = d.signature(module, ir_function) {
        if let Outcome::Done(d2, main_id) = d1.generate_id() {
            lemma_block_leads(
                d2,
                module,
                ir_function,
                main_id,
                ir_function.body@,
                None,
                LoopContext::outside(),
            );
            if let Outcome::Done(e, _) = d.function(module, ir_function) {
                assert forall|i: int, id: Word|
                    0 <= i < e.function.blocks.len() && #[trigger] block_leads_to(
                        e.function.blocks[i],
                        id,
                    ) implies exists|k: int|
                    0 <= k < e.function.blocks.len() && (#[trigger] e.function.blocks[k]).label_id
                        == id by {
                    assert(is_label(e.function.blocks, 0, id));
                }
            }
        }
    }
}

} // verus!

//! The labels of blocks.

use crate::arena::Handle;
use crate::ir::{Expression, Function as IrFunction, Module, Statement};
use crate::spv::function::{BlockView, FunctionView, LoopContext};
use crate::spv::growth_statements::{
    block_definitions, lemma_block_grows, lemma_definitions_kept, lemma_expression_grows,
    lemma_expression_pointer_grows, lemma_signature_grows,
};
use crate::spv::instructions::op_branch;
use crate::spv::model::{Outcome, WriterView};
use crate::spv::statements::{
    draft, law_blocks_are_left, lemma_statement_gains_blocks, lemma_statements_gain_blocks, Draft,
};
use crate::spv::words::Word;
use vstd::prelude::*;

verus! {

/// Whether a block labeled `label_id` comes next behind the first `n` blocks: it is among
/// `blocks`, or it is the one that is being written.
pub open spec fn comes_next(
    n: nat,
    label_id: Word,
    blocks: Seq<BlockView>,
    current: BlockView,
) -> bool {
    if blocks.len() == n {
        current.label_id == label_id
    } else {
        blocks.len() > n && blocks[n as int].label_id == label_id
    }
}

proof fn lemma_fork_labels(
    d: Draft,
    module: Module,
    ir_function: IrFunction,
    block: BlockView,
    condition: Handle<Expression>,
)
    ensures
        d.fork(module, ir_function, block, condition) matches Outcome::Done(e, _)
            ==> e.function.blocks.len() == d.function.blocks.len() + 1
            && e.function.blocks.last().label_id == block.label_id,
{
    reveal(Draft::fork);
    lemma_expression_grows(d, module, ir_function, block, condition);
}

proof fn lemma_loop_labels(d: Draft, block: BlockView)
    ensures
        d.enter_loop(block) matches Outcome::Done(e, _) ==> e.function.blocks.len()
            > d.function.blocks.len() && e.function.blocks[d.function.blocks.len() as int].label_id
            == block.label_id,
{
    reveal(Draft::enter_loop);
}

proof fn lemma_store_labels(
    d: Draft,
    module: Module,
    ir_function: IrFunction,
    block: BlockView,
    pointer: Handle<Expression>,
    value: Handle<Expression>,
)
    ensures
        d.store(module, ir_function, block, pointer, value) matches Outcome::Done(e, next)
            ==> e.function == d.function && next.label_id == block.label_id,
{
    reveal(Draft::store);
    lemma_expression_pointer_grows(d, module, ir_function, block, pointer);
    if let Outcome::Done(d1, target) = d.expression_pointer(module, ir_function, block, pointer) {
        lemma_expression_grows(d1, module, ir_function, target.0, value);
    }
}

/// A statement ends the block that it is appended to, or goes on with it.
proof fn lemma_statement_labels(
    d: Draft,
    module: Module,
    ir_function: IrFunction,
    block: BlockView,
    statement: Statement,
    context: LoopContext,
)
    ensures
        d.statement(module, ir_function, block, statement, context) matches Outcome::Done(e, next)
            ==> comes_next(d.function.blocks.len(), block.label_id, e.function.blocks, next),
{
    reveal(FunctionView::gains_blocks);
    match statement {
        Statement::Block(list) => {
            if let Outcome::Done(d1, scope_id) = d.generate_id() {
                let d2 = d1.add(block.terminate(op_branch(scope_id)));
                if let Outcome::Done(d3, merge_id) = d2.generate_id() {
                    let exit_id = Some(merge_id);
                    law_blocks_are_left(
                        d3,
                        module,
                        ir_function,
                        scope_id,
                        list@,
                        exit_id,
                        context,
                    );
                }
            }
        },
        Statement::If { condition, accept, reject } => {
            lemma_fork_labels(d, module, ir_function, block, condition);
            if let Outcome::Done(d1, ids) = d.fork(module, ir_function, block, condition) {
                let exit_id = Some(ids.2);
                law_blocks_are_left(d1, module, ir_function, ids.0, accept@, exit_id, context);
                if let Outcome::Done(d2, _) = d1.block(
                    module,
                    ir_function,
                    ids.0,
                    accept@,
                    exit_id,
                    context,
                ) {
                    law_blocks_are_left(d2, module, ir_function, ids.1, reject@, exit_id, context);
                }
            }
        },
        Statement::Loop { body, continuing } => {
            lemma_loop_labels(d, block);
            if let Outcome::Done(d1, ids) = d.enter_loop(block) {
                let inside = LoopContext { continuing_id: Some(ids.3), break_id: Some(ids.1) };
                let after = LoopContext { continuing_id: None, break_id: Some(ids.1) };
                let again = Some(ids.0);
                law_blocks_are_left(
                    d1,
                    module,
                    ir_function,
                    ids.2,
                    body@,
                    Some(ids.3),
                    inside,
                );
                if let Outcome::Done(d2, _) = d1.block(
                    module,
                    ir_function,
                    ids.2,
                    body@,
                    Some(ids.3),
                    inside,
                ) {
                    law_blocks_are_left(
                        d2,
                        module,
                        ir_function,
                        ids.3,
                        continuing@,
                        again,
                        after,
                    );
                }
            }
        },
        Statement::Return { value: Some(value) } => {
            lemma_expression_grows(d, module, ir_function, block, value);
        },
        Statement::Store { pointer, value } => {
            lemma_store_labels(d, module, ir_function, block, pointer, value);
        },
        _ => {},
    }
}

proof fn lemma_statements_labels(
    d: Draft,
    module: Module,
    ir_function: IrFunction,
    block: BlockView,
    list: Seq<Statement>,
    context: LoopContext,
)
    ensures
        d.statements(module, ir_function, block, list, context) matches Outcome::Done(e, next)
            ==> comes_next(d.function.blocks.len(), block.label_id, e.function.blocks, next),
    decreases list.len(),
{
    if list.len() > 0 && block.termination is None {
        lemma_statement_labels(d, module, ir_function, block, list[0], context);
        lemma_statement_gains_blocks(d, module, ir_function, block, list[0], context);
        if let Outcome::Done(e, next) = d.statement(module, ir_function, block, list[0], context) {
            let rest = list.subrange(1, list.len() as int);
            lemma_statements_labels(e, module, ir_function, next, rest, context);
            lemma_statements_gain_blocks(e, module, ir_function, next, rest, context);
            reveal(FunctionView::gains_blocks);
        }
    }
}

proof fn lemma_no_fewer(before: Seq<BlockView>, later: Seq<BlockView>, id: Word)
    requires
        before.is_prefix_of(later),
    ensures
        block_definitions(before, id) <= block_definitions(later, id),
    decreases later.len(),
{
    if before.len() < later.len() {
        let first = later.drop_last();
        assert(first.subrange(0, before.len() as int) =~= later.subrange(0, before.len() as int));
        lemma_no_fewer(before, first, id);
    } else {
        assert(later.subrange(0, before.len() as int) =~= later);
    }
}

/// A block that was added defines its label.
proof fn lemma_one_label(before: Seq<BlockView>, later: Seq<BlockView>, i: int)
    requires
        before.is_prefix_of(later),
        before.len() <= i < later.len(),
    ensures
        block_definitions(before, later[i].label_id) < block_definitions(later, later[i].label_id),
    decreases later.len(),
{
    let first = later.drop_last();
    assert(first.subrange(0, before.len() as int) =~= later.subrange(0, before.len() as int));
    if i < first.len() {
        lemma_one_label(before, first, i);
    } else {
        lemma_no_fewer(before, first, later[i].label_id);
    }
}

/// Two blocks that were added define their label twice if it is the same.
proof fn lemma_two_labels(before: Seq<BlockView>, later: Seq<BlockView>, i: int, j: int)
    requires
        before.is_prefix_of(later),
        before.len() <= i < j < later.len(),
        later[i].label_id == later[j].label_id,
    ensures
        block_definitions(before, later[i].label_id) + 2 <= block_definitions(
            later,
            later[i].label_id,
        ),
    decreases later.len(),
{
    let first = later.drop_last();
    assert(first.subrange(0, before.len() as int) =~= later.subrange(0, before.len() as int));
    if j < first.len() {
        lemma_two_labels(before, first, i, j);
    } else {
        lemma_one_label(before, first, i);
    }
}

/// Whether `after` is `before` with more blocks: the first of them is labeled `label_id`, and the
/// others by identifiers that were handed out between `first` and `last`, no two by the same.
pub open spec fn gains_labels(
    before: Seq<BlockView>,
    after: Seq<BlockView>,
    label_id: Word,
    first: u32,
    last: u32,
) -> bool {
    let n = before.len();
    &&& before.is_prefix_of(after)
    &&& after.len() > n
    &&& after[n as int].label_id == label_id
    &&& forall|i: int| n < i < after.len() ==> first < (#[trigger] after[i]).label_id <= last
    &&& forall|i: int, j: int|
        n <= i < after.len() && n <= j < after.len() && i != j ==> (
        #[trigger] after[i]).label_id != (#[trigger] after[j]).label_id
}

/// Statements that are written as blocks of their own begin with the block that they were given
/// the label of. The labels of the others are new, and no two blocks have the same label.
pub proof fn law_labels_are_distinct(
    d: Draft,
    module: Module,
    ir_function: IrFunction,
    label_id: Word,
    list: Seq<Statement>,
    exit_id: Option<Word>,
    context: LoopContext,
)
    requires
        label_id <= d.writer.id_count,
    ensures
        d.block(module, ir_function, label_id, list, exit_id, context) matches Outcome::Done(e, _)
            ==> gains_labels(
            d.function.blocks,
            e.function.blocks,
            label_id,
            d.writer.id_count,
            e.writer.id_count,
        ),
{
    let start = BlockView::start(label_id);
    lemma_statements_labels(d, module, ir_function, start, list, context);
    law_blocks_are_left(d, module, ir_function, label_id, list, exit_id, context);
    lemma_block_grows(d, module, ir_function, label_id, list, exit_id, context);
    if let Outcome::Done(e, _) = d.block(
        module,
        ir_function,
        label_id,
        list,
        exit_id,
        context,
    ) {
        reveal(FunctionView::gains_blocks);
        let before = d.function.blocks;
        let after = e.function.blocks;
        let n = before.len();
        assert(before =~= after.subrange(0, n as int));
        assert forall|i: int, j: int| n <= i < j < after.len() implies after[i].label_id
            != after[j].label_id by {
            if after[i].label_id == after[j].label_id {
                let id = after[i].label_id;
                lemma_two_labels(before, after, i, j);
                lemma_definitions_kept(d.writer, e.writer, id);
                assert(e.definitions(id) >= d.definitions(id) + 2);
            }
        }
        assert forall|i: int| n < i < after.len() implies d.writer.id_count < (
        #[trigger] after[i]).label_id <= e.writer.id_count by {
            let id = after[i].label_id;
            assert(after[n as int].label_id != id);
            lemma_one_label(before, after, i);
            lemma_definitions_kept(d.writer, e.writer, id);
            assert(e.definitions(id) >= d.definitions(id) + 1);
        }
    }
}

/// No two blocks of a function have the same label.
pub proof fn law_labels_of_function_are_distinct(
    w: WriterView,
    module: Module,
    ir_function: IrFunction,
)
    ensures
        draft(w, FunctionView::empty()).function(module, ir_function) matches Outcome::Done(e, _)
            ==> e.function.blocks.len() > 0 && forall|i: int, j: int|
            0 <= i < e.function.blocks.len() && 0 <= j < e.function.blocks.len() && i != j ==> (
            #[trigger] e.function.blocks[i]).label_id != (#[trigger] e.function.blocks[j]).label_id,
{
    let d = draft(w, FunctionView::empty());
    lemma_signature_grows(d, module, ir_function);
    if let Outcome::Done(d1, _) = d.signature(module, ir_function) {
        if let Outcome::Done(d2, main_id) = d1.generate_id() {
            law_labels_are_distinct(
                d2,
                module,
                ir_function,
                main_id,
                ir_function.body@,
                None,
                LoopContext::outside(),
            );
        }
    }
}

} // verus!

//! How the blocks of conditions, loops and nested blocks hang together.

use crate::arena::Handle;
use crate::ir::{Expression, Function as IrFunction, Module, Statement};
use crate::spv::branch_laws::{
    block_leads_to, context_set, exit_set, is_label, lemma_block_leads, lemma_store_leads,
};
use crate::spv::expression_laws::{is_raw, is_value, writes_raw, writes_value};
use crate::spv::expressions::{Cursor, Scope};
use crate::spv::function::{BlockView, LoopContext, RawExpression};
use crate::spv::growth_statements::{lemma_expression_grows, lemma_statement_grows};
use crate::spv::instruction::InstructionView;
use crate::spv::instructions::{op_branch, op_return_value};
use crate::spv::label_laws::law_labels_are_distinct;
use crate::spv::lookup::LookupType;
use crate::spv::model::Outcome;
use crate::spv::operation_laws::is_valued;
use crate::spv::statements::{closed_block, Draft};
use crate::spv::words::Word;
use spirv_headers as spirv;
use vstd::prelude::*;

verus! {

/// Whether an instruction moves control to `id`, whatever the state.
pub open spec fn goes_to(instruction: InstructionView, id: Word) -> bool {
    instruction.op == spirv::Op::Branch && instruction.operands == seq![id]
}

/// Whether a block is left as statements that end in it want it: for the end of the loop by a
/// break, for its continuing part by a continue, out of the function by a return, and else for
/// `exit_id`, or out of the function if there is no such block.
pub open spec fn is_left_by(
    block: BlockView,
    list: Seq<Statement>,
    exit_id: Option<Word>,
    context: LoopContext,
) -> bool {
    let instruction = block.termination->0;
    &&& block.termination is Some
    &&& if list.len() > 0 && list.last() is Break {
        context.break_id is Some && goes_to(instruction, context.break_id->0)
    } else if list.len() > 0 && list.last() is Continue {
        context.continuing_id is Some && goes_to(instruction, context.continuing_id->0)
    } else if list.len() > 0 && list.last() is Return {
        match list.last()->Return_value {
            Some(_) => instruction.op == spirv::Op::ReturnValue && instruction.operands.len() == 1,
            None => instruction.op == spirv::Op::Return,
        }
    } else {
        match exit_id {
            Some(id) => goes_to(instruction, id),
            None => instruction.op == spirv::Op::Return,
        }
    }
}

/// Whether all labels of a context were handed out.
pub open spec fn is_known_context(d: Draft, context: LoopContext) -> bool {
    &&& context.break_id matches Some(id) ==> id <= d.writer.id_count
    &&& context.continuing_id matches Some(id) ==> id <= d.writer.id_count
}

/// Whether the blocks from the `n`-th to the `m`-th lead only to others among them, but not to the
/// first, and to `exits`.
pub open spec fn is_closed(blocks: Seq<BlockView>, n: int, m: int, exits: Set<Word>) -> bool {
    forall|i: int, id: Word|
        n <= i < m && #[trigger] block_leads_to(blocks[i], id) ==> exits.contains(id) || (exists|
            k: int,
        |
            n < k < m && (#[trigger] blocks[k]).label_id == id && id != blocks[n].label_id)
}

/// Whether none of the blocks from the `n`-th to the `m`-th leads to `id`.
pub open spec fn avoids(blocks: Seq<BlockView>, n: int, m: int, id: Word) -> bool {
    forall|i: int| n <= i < m ==> !block_leads_to(#[trigger] blocks[i], id)
}

/// Whether the blocks from the `n`-th on lead only to labels that were handed out after `first`,
/// and to `exits`.
pub open spec fn leads_on(blocks: Seq<BlockView>, n: nat, first: u32, exits: Set<Word>) -> bool {
    forall|i: int, id: Word|
        n <= i < blocks.len() && #[trigger] block_leads_to(blocks[i], id) ==> id > first
            || exits.contains(id)
}

proof fn lemma_leads_on(
    a: Seq<BlockView>,
    b: Seq<BlockView>,
    n: nat,
    first: u32,
    second: u32,
    before: Set<Word>,
    after: Set<Word>,
    exits: Set<Word>,
)
    requires
        n <= a.len(),
        a.is_prefix_of(b),
        first <= second,
        leads_on(a, n, first, before),
        leads_on(b, a.len(), second, after),
        forall|id: Word| #[trigger] before.contains(id) ==> id > first || exits.contains(id),
        forall|id: Word| #[trigger] after.contains(id) ==> id > first || exits.contains(id),
    ensures
        leads_on(b, n, first, exits),
{
    assert forall|i: int, id: Word|
        n <= i < b.len() && #[trigger] block_leads_to(b[i], id) implies id > first
        || exits.contains(id) by {
        if i < a.len() {
            assert(a[i] == b.subrange(0, a.len() as int)[i]);
            assert(block_leads_to(a[i], id));
            assert(id > first || before.contains(id));
        } else {
            assert(id > second || after.contains(id));
        }
    }
}

proof fn lemma_leads_by_one(
    a: Seq<BlockView>,
    n: nat,
    first: u32,
    block: BlockView,
    before: Set<Word>,
    exits: Set<Word>,
)
    requires
        n <= a.len(),
        leads_on(a, n, first, before),
        forall|id: Word| #[trigger] before.contains(id) ==> id > first || exits.contains(id),
        forall|id: Word| #[trigger] block_leads_to(block, id) ==> id > first || exits.contains(id),
    ensures
        leads_on(a.push(block), n, first, exits),
{
    let b = a.push(block);
    assert forall|i: int, id: Word|
        n <= i < b.len() && #[trigger] block_leads_to(b[i], id) implies id > first
        || exits.contains(id) by {
        if i < a.len() {
            assert(block_leads_to(a[i], id));
            assert(id > first || before.contains(id));
        }
    }
}

/// What a fork leaves behind: a block that names where both branches meet, and leads to one of
/// them.
pub open spec fn is_fork(
    d: Draft,
    module: Module,
    ir_function: IrFunction,
    block: BlockView,
    condition: Handle<Expression>,
    fork: BlockView,
    accept_id: Word,
    reject_id: Word,
    merge_id: Word,
) -> bool {
    let instruction = fork.termination->0;
    let merge = fork.body.last();
    &&& fork.label_id == block.label_id
    &&& fork.termination is Some
    &&& fork.body.len() > 0
    &&& merge.op == spirv::Op::SelectionMerge
    &&& merge.operands.len() == 2 && merge.operands[0] == merge_id
    &&& instruction.op == spirv::Op::BranchConditional
    &&& instruction.operands.len() == 3
    &&& instruction.operands[1] == accept_id
    &&& instruction.operands[2] == reject_id
    &&& exists|ty: LookupType, with: BlockView|
        {
            &&& #[trigger] is_value(
                d.scope(module, ir_function),
                condition,
                ir_function.expressions.count(),
                block,
                (instruction.operands[0], ty),
                with,
            )
            &&& fork.body == with.body.push(merge)
        }
}

pub proof fn lemma_fork(
    d: Draft,
    module: Module,
    ir_function: IrFunction,
    block: BlockView,
    condition: Handle<Expression>,
)
    requires
        block.termination is None,
    ensures
        d.fork(module, ir_function, block, condition) matches Outcome::Done(e, ids) ==> {
            &&& e.function.blocks == d.function.blocks.push(e.function.blocks.last())
            &&& is_fork(
                d,
                module,
                ir_function,
                block,
                condition,
                e.function.blocks.last(),
                ids.0,
                ids.1,
                ids.2,
            )
            &&& d.writer.id_count < ids.2 < ids.0 < ids.1 == e.writer.id_count
            &&& e.function == d.function.add(e.function.blocks.last())
        },
{
    reveal(Draft::fork);
    lemma_expression_grows(d, module, ir_function, block, condition);
    let s = d.scope(module, ir_function);
    let n = ir_function.expressions.count();
    let c = Cursor { writer: d.writer, block };
    if let Outcome::Done(f, value) = c.value(s, condition, n) {
        assert(writes_value(c, s, condition, n, f, value));
        assert(is_value(s, condition, n, block, (value.0, value.1), f.block));
    }
}

pub proof fn lemma_enter(d: Draft, block: BlockView)
    requires
        block.termination is None,
    ensures
        d.enter_loop(block) matches Outcome::Done(e, ids) ==> {
            let n = d.function.blocks.len() as int;
            let b = e.function.blocks;
            &&& b == d.function.blocks.push(b[n]).push(b[n + 1])
            &&& b[n].label_id == block.label_id && b[n].body == block.body
            &&& b[n].termination is Some && goes_to(b[n].termination->0, ids.0)
            &&& b[n + 1].label_id == ids.0
            &&& b[n + 1].body.len() == 1
            &&& b[n + 1].body[0].op == spirv::Op::LoopMerge
            &&& b[n + 1].body[0].operands.len() == 3
            &&& b[n + 1].body[0].operands[0] == ids.1
            &&& b[n + 1].body[0].operands[1] == ids.3
            &&& b[n + 1].termination is Some && goes_to(b[n + 1].termination->0, ids.2)
            &&& d.writer.id_count < ids.0 < ids.1 < ids.2 < ids.3 == e.writer.id_count
            &&& e.function == d.function.add(b[n]).add(b[n + 1])
        },
{
    reveal(Draft::enter_loop);
}

pub proof fn lemma_block_fresh(
    d: Draft,
    module: Module,
    ir_function: IrFunction,
    label_id: Word,
    list: Seq<Statement>,
    exit_id: Option<Word>,
    context: LoopContext,
)
    ensures
        d.block(module, ir_function, label_id, list, exit_id, context) matches Outcome::Done(e, _)
            ==> {
            &&& d.function.blocks.is_prefix_of(e.function.blocks)
            &&& d.writer.id_count <= e.writer.id_count
            &&& leads_on(
                e.function.blocks,
                d.function.blocks.len(),
                d.writer.id_count,
                context_set(context).union(exit_set(exit_id)),
            )
            &&& e.function.blocks.len() > d.function.blocks.len()
            &&& is_left_by(e.function.blocks.last(), list, exit_id, context)
        },
    decreases list, 1nat,
{
    let start = BlockView::start(label_id);
    lemma_statements_fresh(d, module, ir_function, start, list, context);
    if let Outcome::Done(e, next) = d.statements(module, ir_function, start, list, context) {
        let exits = context_set(context).union(exit_set(exit_id));
        let last = closed_block(next, exit_id);
        assert forall|id: Word| #[trigger] block_leads_to(last, id) implies exits.contains(id) by {
            if next.termination is Some {
                assert(block_leads_to(next, id));
            }
        }
        lemma_leads_by_one(
            e.function.blocks,
            d.function.blocks.len(),
            d.writer.id_count,
            last,
            context_set(context),
            exits,
        );
        let a = d.function.blocks;
        let b = e.function.blocks;
        assert(b.push(last).subrange(0, a.len() as int) =~= b.subrange(0, a.len() as int));
    }
}

/// How a block is left when statements end in it, if they leave it.
pub open spec fn is_left_within(next: BlockView, list: Seq<Statement>, context: LoopContext) -> bool {
    if list.len() > 0 && (list.last() is Break || list.last() is Continue || list.last() is Return) {
        next.termination is Some && is_left_by(next, list, None, context)
    } else {
        next.termination is None
    }
}

pub proof fn lemma_statements_fresh(
    d: Draft,
    module: Module,
    ir_function: IrFunction,
    block: BlockView,
    list: Seq<Statement>,
    context: LoopContext,
)
    requires
        block.termination is None,
    ensures
        d.statements(module, ir_function, block, list, context) matches Outcome::Done(e, next)
            ==> {
            &&& d.function.blocks.is_prefix_of(e.function.blocks)
            &&& d.writer.id_count <= e.writer.id_count
            &&& leads_on(
                e.function.blocks,
                d.function.blocks.len(),
                d.writer.id_count,
                context_set(context),
            )
            &&& is_left_within(next, list, context)
            &&& forall|id: Word| #[trigger]
                block_leads_to(next, id) ==> context_set(context).contains(id)
        },
    decreases list, 0nat,
{
    if list.len() == 0 {
        assert(d.function.blocks.subrange(0, d.function.blocks.len() as int)
            =~= d.function.blocks);
    } else {
        let rest = list.subrange(1, list.len() as int);
        lemma_statement_fresh(d, module, ir_function, block, list[0], context);
        if let Outcome::Done(e, next) = d.statement(module, ir_function, block, list[0], context) {
            if rest.len() == 0 {
                assert(list.last() == list[0]);
            } else {
                assert(list.last() == rest.last());
            }
            if next.termination is None {
                lemma_statements_fresh(e, module, ir_function, next, rest, context);
                if let Outcome::Done(f, last) = e.statements(
                    module,
                    ir_function,
                    next,
                    rest,
                    context,
                ) {
                    let a = d.function.blocks;
                    let b = e.function.blocks;
                    let c = f.function.blocks;
                    lemma_leads_on(
                        b,
                        c,
                        a.len(),
                        d.writer.id_count,
                        e.writer.id_count,
                        context_set(context),
                        context_set(context),
                        context_set(context),
                    );
                    assert(c.subrange(0, a.len() as int) =~= b.subrange(0, a.len() as int));
                }
            }
        }
    }
}

pub proof fn lemma_statement_fresh(
    d: Draft,
    module: Module,
    ir_function: IrFunction,
    block: BlockView,
    statement: Statement,
    context: LoopContext,
)
    requires
        block.termination is None,
    ensures
        d.statement(module, ir_function, block, statement, context) matches Outcome::Done(e, next)
            ==> {
            &&& d.function.blocks.is_prefix_of(e.function.blocks)
            &&& d.writer.id_count <= e.writer.id_count
            &&& leads_on(
                e.function.blocks,
                d.function.blocks.len(),
                d.writer.id_count,
                context_set(context),
            )
            &&& is_left_within(next, seq![statement], context)
            &&& forall|id: Word| #[trigger]
                block_leads_to(next, id) ==> context_set(context).contains(id)
        },
    decreases statement, 2nat,
{
    let a = d.function.blocks;
    let n = a.len();
    let first = d.writer.id_count;
    let known = context_set(context);
    assert(a.subrange(0, n as int) =~= a);
    assert(seq![statement].last() == statement);
    match statement {
        Statement::Block(list) => {
            if let Outcome::Done(d1, scope_id) = d.generate_id() {
                let left = block.terminate(op_branch(scope_id));
                let b = a.push(left);
                if let Outcome::Done(d2, merge_id) = d1.add(left).generate_id() {
                    let exit_id = Some(merge_id);
                    lemma_block_fresh(d2, module, ir_function, scope_id, list@, exit_id, context);
                    if let Outcome::Done(e, _) = d2.block(
                        module,
                        ir_function,
                        scope_id,
                        list@,
                        exit_id,
                        context,
                    ) {
                        let c = e.function.blocks;
                        lemma_leads_by_one(a, n, first, left, Set::empty(), known);
                        lemma_leads_on(
                            b,
                            c,
                            n,
                            first,
                            d2.writer.id_count,
                            known,
                            known.union(exit_set(exit_id)),
                            known,
                        );
                        assert(c.subrange(0, n as int) =~= b.subrange(0, n as int));
                        assert(b.subrange(0, n as int) =~= a);
                    }
                }
            }
        },
        Statement::If { condition, accept, reject } => {
            lemma_fork(d, module, ir_function, block, condition);
            if let Outcome::Done(d1, ids) = d.fork(module, ir_function, block, condition) {
                let exit_id = Some(ids.2);
                let b = d1.function.blocks;
                lemma_leads_by_one(a, n, first, b.last(), Set::empty(), known);
                lemma_block_fresh(d1, module, ir_function, ids.0, accept@, exit_id, context);
                if let Outcome::Done(d2, _) = d1.block(
                    module,
                    ir_function,
                    ids.0,
                    accept@,
                    exit_id,
                    context,
                ) {
                    let c = d2.function.blocks;
                    lemma_leads_on(
                        b,
                        c,
                        n,
                        first,
                        d1.writer.id_count,
                        known,
                        known.union(exit_set(exit_id)),
                        known,
                    );
                    lemma_block_fresh(d2, module, ir_function, ids.1, reject@, exit_id, context);
                    if let Outcome::Done(e, _) = d2.block(
                        module,
                        ir_function,
                        ids.1,
                        reject@,
                        exit_id,
                        context,
                    ) {
                        lemma_leads_on(
                            c,
                            e.function.blocks,
                            n,
                            first,
                            d2.writer.id_count,
                            known,
                            known.union(exit_set(exit_id)),
                            known,
                        );
                        let f = e.function.blocks;
                        assert(f.subrange(0, n as int) =~= c.subrange(0, n as int));
                        assert(c.subrange(0, n as int) =~= b.subrange(0, n as int));
                        assert(b.subrange(0, n as int) =~= a);
                    }
                }
            }
        },
        Statement::Loop { body, continuing } => {
            lemma_enter(d, block);
            if let Outcome::Done(d1, ids) = d.enter_loop(block) {
                let inside = LoopContext { continuing_id: Some(ids.3), break_id: Some(ids.1) };
                let after = LoopContext { continuing_id: None, break_id: Some(ids.1) };
                let b = d1.function.blocks;
                let k = n as int;
                lemma_leads_by_one(a, n, first, b[k], Set::empty(), known);
                lemma_leads_by_one(a.push(b[k]), n, first, b[k + 1], known, known);
                lemma_block_fresh(d1, module, ir_function, ids.2, body@, Some(ids.3), inside);
                if let Outcome::Done(d2, _) = d1.block(
                    module,
                    ir_function,
                    ids.2,
                    body@,
                    Some(ids.3),
                    inside,
                ) {
                    let c = d2.function.blocks;
                    lemma_leads_on(
                        b,
                        c,
                        n,
                        first,
                        d1.writer.id_count,
                        known,
                        context_set(inside).union(exit_set(Some(ids.3))),
                        known,
                    );
                    let again = Some(ids.0);
                    lemma_block_fresh(d2, module, ir_function, ids.3, continuing@, again, after);
                    if let Outcome::Done(e, _) = d2.block(
                        module,
                        ir_function,
                        ids.3,
                        continuing@,
                        again,
                        after,
                    ) {
                        lemma_leads_on(
                            c,
                            e.function.blocks,
                            n,
                            first,
                            d2.writer.id_count,
                            known,
                            context_set(after).union(exit_set(again)),
                            known,
                        );
                        let f = e.function.blocks;
                        assert(f.subrange(0, n as int) =~= c.subrange(0, n as int));
                        assert(c.subrange(0, n as int) =~= b.subrange(0, n as int));
                        assert(b.subrange(0, n as int) =~= a);
                    }
                }
            }
        },
        Statement::Return { value: Some(value) } => {
            lemma_expression_grows(d, module, ir_function, block, value);
        },
        Statement::Store { pointer, value } => {
            lemma_store_leads(d, module, ir_function, block, pointer, value);
            lemma_statement_grows(d, module, ir_function, block, statement, context);
        },
        _ => {},
    }
}

/// The blocks that are written for statements lead to one another, but not to the first, and to
/// `exits`. Labels that were handed out before, and are not among these, are avoided.
proof fn lemma_part_is_closed(
    d: Draft,
    module: Module,
    ir_function: IrFunction,
    label_id: Word,
    list: Seq<Statement>,
    exit_id: Option<Word>,
    context: LoopContext,
    later: Seq<BlockView>,
)
    requires
        label_id <= d.writer.id_count,
        d.block(module, ir_function, label_id, list, exit_id, context) matches Outcome::Done(e, _)
            ==> e.function.blocks.is_prefix_of(later),
    ensures
        d.block(module, ir_function, label_id, list, exit_id, context) matches Outcome::Done(e, _)
            ==> {
            let n = d.function.blocks.len() as int;
            let m = e.function.blocks.len() as int;
            let exits = context_set(context).union(exit_set(exit_id));
            &&& n < m <= later.len()
            &&& later[n].label_id == label_id
            &&& is_closed(later, n, m, exits)
            &&& is_left_by(later[m - 1], list, exit_id, context)
            &&& forall|id: Word|
                id <= d.writer.id_count && !exits.contains(id) ==> #[trigger] avoids(
                    later,
                    n,
                    m,
                    id,
                )
            &&& d.writer.id_count <= e.writer.id_count
            &&& d.function.blocks.is_prefix_of(later)
        },
{
    lemma_block_leads(d, module, ir_function, label_id, list, exit_id, context);
    lemma_block_fresh(d, module, ir_function, label_id, list, exit_id, context);
    law_labels_are_distinct(d, module, ir_function, label_id, list, exit_id, context);
    if let Outcome::Done(e, _) = d.block(module, ir_function, label_id, list, exit_id, context) {
        let n = d.function.blocks.len() as int;
        let m = e.function.blocks.len() as int;
        let b = e.function.blocks;
        let exits = context_set(context).union(exit_set(exit_id));
        assert(later.subrange(0, m) == b);
        assert forall|i: int| 0 <= i < m implies #[trigger] later[i] == b[i] by {
            assert(later.subrange(0, m)[i] == b[i]);
        }
        assert forall|i: int, id: Word|
            n <= i < m && #[trigger] block_leads_to(later[i], id) implies exits.contains(id) || (
        exists|k: int|
            n < k < m && (#[trigger] later[k]).label_id == id && id != later[n].label_id) by {
            assert(block_leads_to(b[i], id));
            if !exits.contains(id) {
                assert(is_label(b, n as nat, id));
                let k = choose|k: int| n <= k < b.len() && (#[trigger] b[k]).label_id == id;
                assert(id > d.writer.id_count);
                assert(later[k].label_id == id);
            }
        }
        assert forall|id: Word| id <= d.writer.id_count && !exits.contains(id) implies #[trigger]
            avoids(later, n, m, id) by {
            assert forall|i: int| n <= i < m implies !block_leads_to(#[trigger] later[i], id) by {
                assert(block_leads_to(b[i], id) ==> id > d.writer.id_count || exits.contains(id));
            }
        }
        assert(d.function.blocks =~= later.subrange(0, n)) by {
            assert(d.function.blocks =~= b.subrange(0, n));
        }
    }
}

/// A condition leads to one of two groups of blocks, and both groups lead to where they meet: the
/// first block that is added decides, the next ones are those of the accepted statements, up to
/// the `m`-th, and the others those of the rejected ones. A group is entered by the decision
/// alone, and its last block, if it is not left by a break, a continue or a return, is left for
/// the block where both meet. That is the block in which control goes on.
pub proof fn law_branches_meet_again(
    d: Draft,
    module: Module,
    ir_function: IrFunction,
    block: BlockView,
    statement: Statement,
    context: LoopContext,
) -> (r: (int, Word, Word))
    requires
        statement is If,
        block.termination is None,
        is_known_context(d, context),
        d.statement(module, ir_function, block, statement, context) is Done,
    ensures
        (d.statement(module, ir_function, block, statement, context), statement) matches (
            Outcome::Done(e, next),
            Statement::If { condition, accept, reject },
        ) ==> {
            let (m, accept_id, reject_id) = r;
            let merge_id = next.label_id;
            let n = d.function.blocks.len() as int;
            let b = e.function.blocks;
            let last = b.len() as int;
            let exits = context_set(context).insert(merge_id);
            &&& d.function.blocks.is_prefix_of(b)
            &&& n + 1 < m < last
            &&& is_fork(
                d,
                module,
                ir_function,
                block,
                condition,
                b[n],
                accept_id,
                reject_id,
                merge_id,
            )
            &&& next.body.len() == 0 && next.termination is None
            &&& b[n + 1].label_id == accept_id
            &&& b[m].label_id == reject_id
            &&& accept_id != reject_id && accept_id != merge_id && reject_id != merge_id
            &&& is_closed(b, n + 1, m, exits)
            &&& is_closed(b, m, last, exits)
            &&& avoids(b, n + 1, last, accept_id)
            &&& avoids(b, n + 1, last, reject_id)
            &&& is_left_by(b[m - 1], accept@, Some(merge_id), context)
            &&& is_left_by(b[last - 1], reject@, Some(merge_id), context)
        },
{
    let condition = statement->If_condition;
    let accept = statement->If_accept@;
    let reject = statement->If_reject@;
    let e = d.statement(module, ir_function, block, statement, context)->Done_0;
    let b = e.function.blocks;
    lemma_fork(d, module, ir_function, block, condition);
    let d1 = d.fork(module, ir_function, block, condition)->Done_0;
    let ids = d.fork(module, ir_function, block, condition)->Done_1;
    let exit_id = Some(ids.2);
    let d2 = d1.block(module, ir_function, ids.0, accept, exit_id, context)->Done_0;
    assert(d2.block(module, ir_function, ids.1, reject, exit_id, context) is Done);
    lemma_block_fresh(d1, module, ir_function, ids.0, accept, exit_id, context);
    lemma_block_fresh(d2, module, ir_function, ids.1, reject, exit_id, context);
    assert(b.subrange(0, b.len() as int) =~= b);
    lemma_part_is_closed(d1, module, ir_function, ids.0, accept, exit_id, context, b);
    lemma_part_is_closed(d2, module, ir_function, ids.1, reject, exit_id, context, b);
    let n = d.function.blocks.len() as int;
    let m = d2.function.blocks.len() as int;
    let last = b.len() as int;
    assert(context_set(context).union(exit_set(exit_id)) =~= context_set(context).insert(ids.2));
    assert(b[n] == d1.function.blocks[n]) by {
        assert(d1.function.blocks =~= b.subrange(0, n + 1));
        assert(b.subrange(0, n + 1)[n] == b[n]);
    }
    assert(d.function.blocks =~= b.subrange(0, n)) by {
        assert(d1.function.blocks =~= b.subrange(0, n + 1));
        assert(b.subrange(0, n) =~= b.subrange(0, n + 1).subrange(0, n));
    }
    assert(avoids(b, n + 1, m, ids.0) && avoids(b, m, last, ids.0));
    assert(avoids(b, n + 1, m, ids.1) && avoids(b, m, last, ids.1));
    assert forall|i: int| n + 1 <= i < last implies !block_leads_to(#[trigger] b[i], ids.0)
        && !block_leads_to(b[i], ids.1) by {
        if i < m {
            assert(avoids(b, n + 1, m, ids.0));
        } else {
            assert(avoids(b, m, last, ids.0));
        }
    }
    (m, ids.0, ids.1)
}

/// A loop starts over until it is left: the first block that is added leads to the head, the head
/// names where the loop ends and continues, and leads to the body. The next blocks are those of
/// the body, up to the `m`-th, and the others those of the continuing part. Control moves from
/// the body to the continuing part and from there to the head, and by a break to the end of the
/// loop, but nowhere else. The end is the block in which control goes on.
pub proof fn law_loops_start_over(
    d: Draft,
    module: Module,
    ir_function: IrFunction,
    block: BlockView,
    statement: Statement,
    context: LoopContext,
) -> (m: int)
    requires
        statement is Loop,
        block.termination is None,
        d.statement(module, ir_function, block, statement, context) is Done,
    ensures
        (d.statement(module, ir_function, block, statement, context), statement) matches (
            Outcome::Done(e, next),
            Statement::Loop { body, continuing },
        ) ==> {
            let merge_id = next.label_id;
            let n = d.function.blocks.len() as int;
            let b = e.function.blocks;
            let last = b.len() as int;
            let head = b[n + 1];
            let body_id = b[n + 2].label_id;
            let continuing_id = b[m].label_id;
            let inside = LoopContext {
                continuing_id: Some(continuing_id),
                break_id: Some(merge_id),
            };
            let after = LoopContext { continuing_id: None, break_id: Some(merge_id) };
            &&& d.function.blocks.is_prefix_of(b)
            &&& n + 2 < m < last
            &&& b[n].label_id == block.label_id && b[n].body == block.body
            &&& b[n].termination is Some && goes_to(b[n].termination->0, head.label_id)
            &&& head.body.len() == 1
            &&& head.body[0].op == spirv::Op::LoopMerge
            &&& head.body[0].operands.len() == 3
            &&& head.body[0].operands[0] == merge_id
            &&& head.body[0].operands[1] == continuing_id
            &&& head.termination is Some && goes_to(head.termination->0, body_id)
            &&& next.body.len() == 0 && next.termination is None
            &&& is_closed(b, n + 2, m, set![continuing_id, merge_id])
            &&& is_closed(b, m, last, set![head.label_id, merge_id])
            &&& avoids(b, n + 2, last, body_id)
            &&& avoids(b, n + 2, m, head.label_id)
            &&& avoids(b, m, last, continuing_id)
            &&& is_left_by(b[m - 1], body@, Some(continuing_id), inside)
            &&& is_left_by(b[last - 1], continuing@, Some(head.label_id), after)
        },
{
    let body = statement->Loop_body@;
    let continuing = statement->Loop_continuing@;
    let e = d.statement(module, ir_function, block, statement, context)->Done_0;
    let b = e.function.blocks;
    lemma_enter(d, block);
    let d1 = d.enter_loop(block)->Done_0;
    let ids = d.enter_loop(block)->Done_1;
    let inside = LoopContext { continuing_id: Some(ids.3), break_id: Some(ids.1) };
    let after = LoopContext { continuing_id: None, break_id: Some(ids.1) };
    let again = Some(ids.0);
    let d2 = d1.block(module, ir_function, ids.2, body, Some(ids.3), inside)->Done_0;
    assert(d2.block(module, ir_function, ids.3, continuing, again, after) is Done);
    lemma_block_fresh(d1, module, ir_function, ids.2, body, Some(ids.3), inside);
    lemma_block_fresh(d2, module, ir_function, ids.3, continuing, again, after);
    assert(b.subrange(0, b.len() as int) =~= b);
    lemma_part_is_closed(d1, module, ir_function, ids.2, body, Some(ids.3), inside, b);
    lemma_part_is_closed(d2, module, ir_function, ids.3, continuing, again, after, b);
    let n = d.function.blocks.len() as int;
    let m = d2.function.blocks.len() as int;
    let last = b.len() as int;
    assert(context_set(inside).union(exit_set(Some(ids.3))) =~= set![ids.3, ids.1]);
    assert(context_set(after).union(exit_set(again)) =~= set![ids.0, ids.1]);
    assert(d1.function.blocks =~= b.subrange(0, n + 2));
    assert(b[n] == b.subrange(0, n + 2)[n] && b[n + 1] == b.subrange(0, n + 2)[n + 1]);
    assert(d.function.blocks =~= b.subrange(0, n)) by {
        assert(b.subrange(0, n) =~= b.subrange(0, n + 2).subrange(0, n));
    }
    assert(avoids(b, n + 2, m, ids.2) && avoids(b, m, last, ids.2));
    assert(avoids(b, n + 2, m, ids.0) && avoids(b, m, last, ids.3));
    assert forall|i: int| n + 2 <= i < last implies !block_leads_to(#[trigger] b[i], ids.2) by {
        if i < m {
            assert(avoids(b, n + 2, m, ids.2));
        } else {
            assert(avoids(b, m, last, ids.2));
        }
    }
    m
}

/// A nested block is entered and left: the first block that is added leads to the blocks of the
/// nested statements, which are left for the block in which control goes on.
pub proof fn law_nested_blocks_are_left(
    d: Draft,
    module: Module,
    ir_function: IrFunction,
    block: BlockView,
    statement: Statement,
    context: LoopContext,
)
    requires
        statement is Block,
        block.termination is None,
        is_known_context(d, context),
    ensures
        (d.statement(module, ir_function, block, statement, context), statement) matches (
            Outcome::Done(e, next),
            Statement::Block(list),
        ) ==> {
            let n = d.function.blocks.len() as int;
            let b = e.function.blocks;
            let last = b.len() as int;
            let exits = context_set(context).insert(next.label_id);
            &&& d.function.blocks.is_prefix_of(b)
            &&& n + 1 < last
            &&& b[n].label_id == block.label_id && b[n].body == block.body
            &&& b[n].termination is Some && goes_to(b[n].termination->0, b[n + 1].label_id)
            &&& next.body.len() == 0 && next.termination is None
            &&& is_closed(b, n + 1, last, exits)
            &&& avoids(b, n + 1, last, b[n + 1].label_id)
            &&& is_left_by(b[last - 1], list@, Some(next.label_id), context)
        },
{
    let list = statement->Block_0@;
    if let Outcome::Done(d1, scope_id) = d.generate_id() {
        let left = block.terminate(op_branch(scope_id));
        if let Outcome::Done(d2, merge_id) = d1.add(left).generate_id() {
            let exit_id = Some(merge_id);
            let step = d2.block(module, ir_function, scope_id, list, exit_id, context);
            if let Outcome::Done(e, _) = step {
                let b = e.function.blocks;
                assert(b.subrange(0, b.len() as int) =~= b);
                lemma_part_is_closed(
                    d2,
                    module,
                    ir_function,
                    scope_id,
                    list,
                    exit_id,
                    context,
                    b,
                );
                let n = d.function.blocks.len() as int;
                assert(d2.function.blocks =~= b.subrange(0, n + 1));
                assert(b[n] == b.subrange(0, n + 1)[n]);
                assert(d.function.blocks =~= b.subrange(0, n)) by {
                    assert(b.subrange(0, n) =~= b.subrange(0, n + 1).subrange(0, n));
                }
                assert(context_set(context).union(exit_set(exit_id)) =~= context_set(
                    context,
                ).insert(merge_id));
                assert(avoids(b, n + 1, b.len() as int, scope_id));
            }
        }
    }
}

pub proof fn lemma_expression_valued(
    d: Draft,
    module: Module,
    ir_function: IrFunction,
    block: BlockView,
    handle: Handle<Expression>,
)
    ensures
        d.expression(module, ir_function, block, handle) matches Outcome::Done(e, written) ==> {
            &&& e.function == d.function
            &&& is_valued(
                d.scope(module, ir_function),
                handle,
                ir_function.expressions.count(),
                block,
                written.1.0,
                written.0,
            )
        },
{
    let s = d.scope(module, ir_function);
    let depth = ir_function.expressions.count();
    let c = Cursor { writer: d.writer, block };
    if let Outcome::Done(f, found) = c.value(s, handle, depth) {
        assert(writes_value(c, s, handle, depth, f, found));
        assert(is_value(s, handle, depth, block, (found.0, found.1), f.block));
    }
}

/// Whether an expression is written as a pointer, whatever it points to.
pub open spec fn is_pointer(
    s: Scope,
    handle: Handle<Expression>,
    depth: nat,
    before: BlockView,
    id: Word,
    after: BlockView,
) -> bool {
    exists|ty: LookupType, class: spirv::StorageClass| #[trigger]
        is_raw(s, handle, depth, before, (RawExpression::Pointer(id, class), ty), after)
}

proof fn lemma_expression_points(
    d: Draft,
    module: Module,
    ir_function: IrFunction,
    block: BlockView,
    handle: Handle<Expression>,
)
    ensures
        d.expression_pointer(module, ir_function, block, handle) matches Outcome::Done(e, written)
            ==> {
            &&& e.function == d.function
            &&& is_pointer(
                d.scope(module, ir_function),
                handle,
                ir_function.expressions.count(),
                block,
                written.1.0,
                written.0,
            )
        },
{
    let s = d.scope(module, ir_function);
    let depth = ir_function.expressions.count();
    let c = Cursor { writer: d.writer, block };
    if let Outcome::Done(f, written) = c.raw(s, handle, depth) {
        assert(writes_raw(c, s, handle, depth, f, written));
        if let RawExpression::Pointer(id, class) = written.0 {
            assert(is_raw(
                s,
                handle,
                depth,
                block,
                (RawExpression::Pointer(id, class), written.1),
                f.block,
            ));
        }
    }
}

/// A value is stored where the pointer leads: the pointer comes first, then the value, and then
/// nothing but the instruction that stores the one through the other.
pub proof fn law_values_are_stored(
    d: Draft,
    module: Module,
    ir_function: IrFunction,
    block: BlockView,
    statement: Statement,
    context: LoopContext,
) -> (r: (Word, BlockView, Word, BlockView))
    requires
        statement is Store,
        d.statement(module, ir_function, block, statement, context) is Done,
    ensures
        (d.statement(module, ir_function, block, statement, context), statement) matches (
            Outcome::Done(e, next),
            Statement::Store { pointer, value },
        ) ==> {
            let (pointer_id, middle, value_id, after) = r;
            let s = d.scope(module, ir_function);
            let depth = ir_function.expressions.count();
            let store = next.body.last();
            &&& e.function == d.function
            &&& next.label_id == block.label_id
            &&& next.termination == block.termination
            &&& is_pointer(s, pointer, depth, block, pointer_id, middle)
            &&& is_valued(s, value, depth, middle, value_id, after)
            &&& next.body == after.body.push(store)
            &&& store.op == spirv::Op::Store
            &&& store.operands == seq![pointer_id, value_id]
        },
{
    let pointer = statement->Store_pointer;
    let value = statement->Store_value;
    reveal(Draft::store);
    lemma_store_leads(d, module, ir_function, block, pointer, value);
    lemma_expression_points(d, module, ir_function, block, pointer);
    let step = d.expression_pointer(module, ir_function, block, pointer);
    let d1 = step->Done_0;
    let target = step->Done_1;
    assert(d1.scope(module, ir_function) == d.scope(module, ir_function));
    lemma_expression_valued(d1, module, ir_function, target.0, value);
    let stored = d1.expression(module, ir_function, target.0, value)->Done_1;
    (target.1.0, target.0, stored.1.0, stored.0)
}

/// A return hands the value of its expression back, and a break and a continue move control to
/// where the loop is left and to where it continues.
pub proof fn law_jumps_leave_the_block(
    d: Draft,
    module: Module,
    ir_function: IrFunction,
    block: BlockView,
    statement: Statement,
    context: LoopContext,
)
    requires
        statement is Return || statement is Break || statement is Continue,
    ensures
        d.statement(module, ir_function, block, statement, context) matches Outcome::Done(e, next)
            ==> {
            let last = next.termination->0;
            &&& e.function == d.function
            &&& next.label_id == block.label_id
            &&& next.termination is Some
            &&& match statement {
                Statement::Return { value: Some(value) } => {
                    &&& last.op == spirv::Op::ReturnValue
                    &&& last.operands.len() == 1
                    &&& exists|with: BlockView|
                        {
                            &&& #[trigger] is_valued(
                                d.scope(module, ir_function),
                                value,
                                ir_function.expressions.count(),
                                block,
                                last.operands[0],
                                with,
                            )
                            &&& with.body == next.body
                        }
                },
                Statement::Return { value: None } => last.op == spirv::Op::Return && next.body
                    == block.body,
                Statement::Break => context.break_id is Some && goes_to(last, context.break_id->0)
                    && next.body == block.body,
                _ => context.continuing_id is Some && goes_to(last, context.continuing_id->0)
                    && next.body == block.body,
            }
        },
{
    if let Statement::Return { value: Some(value) } = statement {
        lemma_expression_grows(d, module, ir_function, block, value);
        lemma_expression_valued(d, module, ir_function, block, value);
        if let Outcome::Done(_, written) = d.expression(module, ir_function, block, value) {
            let step = d.statement(module, ir_function, block, statement, context);
            let next = written.0.terminate(op_return_value(written.1.0));
            assert(step->Done_1 == next);
            let last = next.termination->0;
            assert(last.operands[0] == written.1.0);
            assert(is_valued(
                d.scope(module, ir_function),
                value,
                ir_function.expressions.count(),
                block,
                last.operands[0],
                written.0,
            ));
            assert(written.0.body == next.body);
        }
    }
}

} // verus!

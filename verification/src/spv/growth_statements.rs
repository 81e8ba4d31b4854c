//! Writing statements and functions keeps what was written.

use crate::arena::Handle;
use crate::ir::{Expression, Function as IrFunction, Module, Statement, VariableClass};
use crate::spv::expressions::Cursor;
use crate::spv::function::{block_instructions, BlockView, FunctionView, LoopContext};
use crate::spv::growth::{
    defines, definitions, group_growth, lemma_definitions_add, lemma_definitions_push,
    lemma_generate, numbered,
};
use crate::spv::growth_declarations::{
    lemma_function_type_grows, lemma_initializer_grows,
    lemma_pointer_grows as lemma_pointer_id_grows, lemma_return_type_grows, lemma_type_id_grows,
};
use crate::spv::growth_expressions::{lemma_pointer_grows, lemma_value_grows};
use crate::spv::instruction::InstructionView;
use crate::spv::instructions::{
    op_branch, op_function_end, op_function_parameter, op_label, op_loop_merge, op_variable,
};
use crate::spv::layout::LogicalLayoutView;
use crate::spv::lookup::LookupType;
use crate::spv::model::{Outcome, WriterView};
use crate::spv::statements::{closed_block, drafting, law_blocks_are_left, Draft};
use crate::spv::words::Word;
use spirv_headers as spirv;
use vstd::prelude::*;

verus! {

/// How many instructions of blocks define `id`.
pub open spec fn block_definitions(blocks: Seq<BlockView>, id: Word) -> nat
    decreases blocks.len(),
{
    if blocks.len() == 0 {
        0
    } else {
        block_definitions(blocks.drop_last(), id) + blocks.last().definitions(id)
    }
}

/// One, if the identifiers are the same.
pub open spec fn same(a: Word, b: Word) -> nat {
    if a == b {
        1
    } else {
        0
    }
}

impl FunctionView {
    /// How many instructions define `id`.
    pub open spec fn definitions(self, id: Word) -> nat {
        (match self.signature {
            Some(instruction) => defines(instruction, id),
            None => 0,
        }) + definitions(self.parameters, id) + definitions(
            self.variables.map_values(|variable: (Word, InstructionView)| variable.1),
            id,
        ) + block_definitions(self.blocks, id)
    }
}

impl Draft {
    /// How many instructions define `id`.
    pub open spec fn definitions(self, id: Word) -> nat {
        self.writer.definitions(id) + self.function.definitions(id)
    }

    /// Whether all that is known and written here is still so in `later`, and the instructions
    /// that `later` holds besides define identifiers that were handed out in between, each of
    /// them once. Of the instructions that are not part of the function yet, `before` counts
    /// those here, and `after` those in `later`.
    pub open spec fn grows_to(
        self,
        before: spec_fn(Word) -> nat,
        later: Draft,
        after: spec_fn(Word) -> nat,
    ) -> bool {
        &&& self.writer.grows_to(later.writer)
        &&& forall|id: Word|
            #![trigger self.definitions(id)]
            #![trigger later.definitions(id)]
            numbered(
                self.writer.id_count,
                later.writer.id_count,
                self.definitions(id) + before(id),
                later.definitions(id) + after(id),
                id,
            )
    }

    /// Whether a step that adds to `block` leads to a state that the writer grows to.
    pub open spec fn grows_by(self, block: BlockView, step: Outcome<Draft, BlockView>) -> bool {
        match step {
            Outcome::Done(later, next) => self.grows_to(
                |id: Word| block.definitions(id),
                later,
                |id: Word| next.definitions(id),
            ),
            Outcome::Fail(later, _) => self.writer.grows_to(later.writer),
            Outcome::Stuck => true,
        }
    }

    /// Whether a step that defines the label `label_id` leads to a state that the writer grows
    /// to.
    pub open spec fn grows_by_label(self, label_id: Word, step: Outcome<Draft, ()>) -> bool {
        match step {
            Outcome::Done(later, _) => self.grows_to(
                |id: Word| same(label_id, id),
                later,
                |id: Word| 0,
            ),
            Outcome::Fail(later, _) => self.writer.grows_to(later.writer),
            Outcome::Stuck => true,
        }
    }

    /// Whether a step leads to a state that the writer grows to.
    pub open spec fn grows_by_itself<T>(self, step: Outcome<Draft, T>) -> bool {
        match step {
            Outcome::Done(later, _) => self.grows_to(|id: Word| 0, later, |id: Word| 0),
            Outcome::Fail(later, _) => self.writer.grows_to(later.writer),
            Outcome::Stuck => true,
        }
    }
}

proof fn lemma_definitions_prefix(a: Seq<InstructionView>, b: Seq<InstructionView>, id: Word)
    requires
        a.is_prefix_of(b),
    ensures
        definitions(a, id) <= definitions(b, id),
    decreases b.len(),
{
    if a.len() < b.len() {
        assert(b.drop_last().subrange(0, a.len() as int) =~= b.subrange(0, a.len() as int));
        lemma_definitions_prefix(a, b.drop_last(), id);
    } else {
        assert(b.subrange(0, a.len() as int) =~= b);
    }
}

proof fn lemma_layout_definitions(a: LogicalLayoutView, b: LogicalLayoutView, id: Word)
    requires
        a.is_start_of(b),
    ensures
        a.definitions(id) <= b.definitions(id),
{
    lemma_definitions_prefix(a.declarations, b.declarations, id);
}

pub proof fn lemma_definitions_kept(a: WriterView, b: WriterView, id: Word)
    requires
        a.is_kept_by(b),
    ensures
        a.definitions(id) <= b.definitions(id),
{
    reveal(WriterView::is_kept_by);
    lemma_layout_definitions(a.logical_layout, b.logical_layout, id);
}

/// Where the writer and its block grow, the writer does.
pub proof fn lemma_cursor_writer_grows(c: Cursor, d: Cursor)
    requires
        c.grows_to(d),
    ensures
        c.writer.grows_to(d.writer),
{
    reveal(Cursor::is_kept_by);
    reveal(WriterView::is_kept_by);
    assert forall|id: Word|
        numbered(
            c.writer.id_count,
            d.writer.id_count,
            #[trigger] c.writer.definitions(id),
            d.writer.definitions(id),
            id,
        ) by {
        lemma_layout_definitions(c.writer.logical_layout, d.writer.logical_layout, id);
        lemma_definitions_prefix(c.block.body, d.block.body, id);
        assert(numbered(
            c.writer.id_count,
            d.writer.id_count,
            c.definitions(id),
            d.definitions(id),
            id,
        ));
    }
}

/// The value of an expression, appended to a block.
pub proof fn lemma_expression_grows(
    d: Draft,
    module: Module,
    ir_function: IrFunction,
    block: BlockView,
    handle: Handle<Expression>,
)
    ensures
        match d.expression(module, ir_function, block, handle) {
            Outcome::Done(e, written) => {
                &&& e.function == d.function
                &&& written.0.termination == block.termination
                &&& written.0.label_id == block.label_id
                &&& d.grows_to(
                    |id: Word| block.definitions(id),
                    e,
                    |id: Word| written.0.definitions(id),
                )
            },
            Outcome::Fail(e, _) => d.writer.grows_to(e.writer),
            Outcome::Stuck => true,
        },
{
    reveal(Cursor::is_kept_by);
    let c = Cursor { writer: d.writer, block };
    let s = d.scope(module, ir_function);
    lemma_value_grows(c, s, handle, ir_function.expressions.count());
    match c.expression(s, handle) {
        Outcome::Done(x, _) => {
            lemma_cursor_writer_grows(c, x);
            let e = Draft { writer: x.writer, function: d.function };
            assert forall|id: Word|
                #![trigger d.definitions(id)]
                #![trigger e.definitions(id)]
                numbered(
                    d.writer.id_count,
                    e.writer.id_count,
                    d.definitions(id) + block.definitions(id),
                    e.definitions(id) + x.block.definitions(id),
                    id,
                ) by {
                assert(numbered(
                    c.writer.id_count,
                    x.writer.id_count,
                    c.definitions(id),
                    x.definitions(id),
                    id,
                ));
            }
        },
        Outcome::Fail(x, _) => {
            lemma_cursor_writer_grows(c, x);
        },
        Outcome::Stuck => {},
    }
}

/// A pointer to the value of an expression, appended to a block.
pub proof fn lemma_expression_pointer_grows(
    d: Draft,
    module: Module,
    ir_function: IrFunction,
    block: BlockView,
    handle: Handle<Expression>,
)
    ensures
        match d.expression_pointer(module, ir_function, block, handle) {
            Outcome::Done(e, written) => {
                &&& e.function == d.function
                &&& written.0.termination == block.termination
                &&& written.0.label_id == block.label_id
                &&& d.grows_to(
                    |id: Word| block.definitions(id),
                    e,
                    |id: Word| written.0.definitions(id),
                )
            },
            Outcome::Fail(e, _) => d.writer.grows_to(e.writer),
            Outcome::Stuck => true,
        },
{
    reveal(Cursor::is_kept_by);
    let c = Cursor { writer: d.writer, block };
    let s = d.scope(module, ir_function);
    lemma_pointer_grows(c, s, handle, ir_function.expressions.count());
    match c.expression_pointer(s, handle) {
        Outcome::Done(x, _) => {
            lemma_cursor_writer_grows(c, x);
            let e = Draft { writer: x.writer, function: d.function };
            assert forall|id: Word|
                #![trigger d.definitions(id)]
                #![trigger e.definitions(id)]
                numbered(
                    d.writer.id_count,
                    e.writer.id_count,
                    d.definitions(id) + block.definitions(id),
                    e.definitions(id) + x.block.definitions(id),
                    id,
                ) by {
                assert(numbered(
                    c.writer.id_count,
                    x.writer.id_count,
                    c.definitions(id),
                    x.definitions(id),
                    id,
                ));
            }
        },
        Outcome::Fail(x, _) => {
            lemma_cursor_writer_grows(c, x);
        },
        Outcome::Stuck => {},
    }
}

proof fn lemma_add_numbers(d: Draft, block: BlockView)
    ensures
        forall|id: Word| #[trigger]
            d.add(block).definitions(id) == d.definitions(id) + block.definitions(id),
{
    assert forall|id: Word| #[trigger]
        d.add(block).definitions(id) == d.definitions(id) + block.definitions(id) by {
        assert(d.function.blocks.push(block).drop_last() =~= d.function.blocks);
    }
}

proof fn lemma_emit_numbers(block: BlockView, instruction: InstructionView)
    ensures
        forall|id: Word| #[trigger]
            block.emit(instruction).definitions(id) == block.definitions(id) + defines(
                instruction,
                id,
            ),
{
    assert forall|id: Word| #[trigger]
        block.emit(instruction).definitions(id) == block.definitions(id) + defines(
            instruction,
            id,
        ) by {
        lemma_definitions_push(block.body, instruction, id);
    }
}

proof fn lemma_draft_generate(d: Draft)
    ensures
        d.generate_id() matches Outcome::Done(e, id) ==> d.writer.grows_to(e.writer)
            && e.function == d.function && e.writer.id_count == d.writer.id_count + 1 && id
            == e.writer.id_count && forall|x: Word| #[trigger]
            e.definitions(x) == d.definitions(x),
        !(d.generate_id() is Fail),
{
    lemma_generate(d.writer);
}

proof fn lemma_fork_grows(
    d: Draft,
    module: Module,
    ir_function: IrFunction,
    block: BlockView,
    condition: Handle<Expression>,
)
    requires
        block.termination is None,
    ensures
        match d.fork(module, ir_function, block, condition) {
            Outcome::Done(e, ids) => {
                &&& d.writer.grows_to(e.writer)
                &&& d.writer.id_count < ids.2
                &&& ids.0 == ids.2 + 1
                &&& ids.1 == ids.2 + 2
                &&& e.writer.id_count == ids.2 + 2
                &&& forall|id: Word|
                    #![trigger d.definitions(id)]
                    #![trigger e.definitions(id)]
                    numbered(
                        d.writer.id_count,
                        (ids.2 - 1) as u32,
                        d.definitions(id) + block.definitions(id),
                        e.definitions(id),
                        id,
                    )
            },
            Outcome::Fail(e, _) => d.writer.grows_to(e.writer),
            Outcome::Stuck => true,
        },
{
    broadcast use group_growth;
    reveal(Draft::fork);
    lemma_expression_grows(d, module, ir_function, block, condition);
    if let Outcome::Done(d1, written) = d.expression(module, ir_function, block, condition) {
        lemma_draft_generate(d1);
        if let Outcome::Done(d2, merge_id) = d1.generate_id() {
            lemma_draft_generate(d2);
            if let Outcome::Done(d3, accept_id) = d2.generate_id() {
                lemma_draft_generate(d3);
                if let Outcome::Done(d4, reject_id) = d3.generate_id() {
                    if let Outcome::Done(e, _) = d.fork(module, ir_function, block, condition) {
                        let last = e.function.blocks.last();
                        assert(e == d4.add(last));
                        lemma_add_numbers(d4, last);
                        assert(last.body.drop_last() =~= written.0.body);
                        assert(forall|id: Word| #[trigger]
                            last.definitions(id) == written.0.definitions(id));
                    }
                }
            }
        }
    }
}

proof fn lemma_enter_loop_grows(d: Draft, block: BlockView)
    requires
        block.termination is None,
    ensures
        match d.enter_loop(block) {
            Outcome::Done(e, ids) => {
                &&& d.writer.grows_to(e.writer)
                &&& ids.0 == d.writer.id_count + 1
                &&& ids.1 == d.writer.id_count + 2
                &&& ids.2 == d.writer.id_count + 3
                &&& ids.3 == d.writer.id_count + 4
                &&& e.writer.id_count == ids.3
                &&& forall|id: Word|
                    #![trigger d.definitions(id)]
                    #![trigger e.definitions(id)]
                    e.definitions(id) == d.definitions(id) + block.definitions(id) + same(
                        ids.0,
                        id,
                    )
            },
            Outcome::Fail(_, _) => false,
            Outcome::Stuck => true,
        },
{
    broadcast use group_growth;
    reveal(Draft::enter_loop);
    lemma_draft_generate(d);
    if let Outcome::Done(d1, preamble_id) = d.generate_id() {
        let left = block.terminate(op_branch(preamble_id));
        let d2 = d1.add(left);
        lemma_add_numbers(d1, left);
        assert(forall|id: Word| #[trigger] left.definitions(id) == block.definitions(id));
        lemma_draft_generate(d2);
        if let Outcome::Done(d3, merge_id) = d2.generate_id() {
            lemma_draft_generate(d3);
            if let Outcome::Done(d4, body_id) = d3.generate_id() {
                lemma_draft_generate(d4);
                if let Outcome::Done(d5, continuing_id) = d4.generate_id() {
                    let start = BlockView::start(preamble_id);
                    let merge = op_loop_merge(merge_id, continuing_id, 0);
                    let preamble = start.emit(merge).terminate(op_branch(body_id));
                    lemma_add_numbers(d5, preamble);
                    lemma_emit_numbers(start, merge);
                    assert(forall|id: Word| #[trigger]
                        preamble.definitions(id) == start.emit(merge).definitions(id));
                }
            }
        }
    }
}

proof fn lemma_store_grows(
    d: Draft,
    module: Module,
    ir_function: IrFunction,
    block: BlockView,
    pointer: Handle<Expression>,
    value: Handle<Expression>,
)
    ensures
        d.grows_by(block, d.store(module, ir_function, block, pointer, value)),
{
    broadcast use group_growth;
    reveal(Draft::store);
    lemma_expression_pointer_grows(d, module, ir_function, block, pointer);
    if let Outcome::Done(d1, target) = d.expression_pointer(module, ir_function, block, pointer) {
        lemma_expression_grows(d1, module, ir_function, target.0, value);
        if let Outcome::Done(d2, next) = d.store(module, ir_function, block, pointer, value) {
            if let Outcome::Done(_, written) = d1.expression(
                module,
                ir_function,
                target.0,
                value,
            ) {
                assert(next.body.drop_last() =~= written.0.body);
                assert(forall|id: Word| #[trigger]
                    next.definitions(id) == written.0.definitions(id));
            }
        }
    }
}

pub proof fn lemma_block_grows(
    d: Draft,
    module: Module,
    ir_function: IrFunction,
    label_id: Word,
    list: Seq<Statement>,
    exit_id: Option<Word>,
    context: LoopContext,
)
    ensures
        d.grows_by_label(
            label_id,
            d.block(module, ir_function, label_id, list, exit_id, context),
        ),
    decreases list, 1nat,
{
    let start = BlockView::start(label_id);
    lemma_statements_grow(d, module, ir_function, start, list, context);
    assert(forall|id: Word| #[trigger] start.definitions(id) == same(label_id, id));
    if let Outcome::Done(e, block) = d.statements(module, ir_function, start, list, context) {
        let last = closed_block(block, exit_id);
        lemma_add_numbers(e, last);
        assert(forall|id: Word| #[trigger] last.definitions(id) == block.definitions(id));
    }
}

pub proof fn lemma_statements_grow(
    d: Draft,
    module: Module,
    ir_function: IrFunction,
    block: BlockView,
    list: Seq<Statement>,
    context: LoopContext,
)
    ensures
        d.grows_by(block, d.statements(module, ir_function, block, list, context)),
    decreases list, 0nat,
{
    broadcast use group_growth;
    if list.len() > 0 && block.termination is None {
        lemma_statement_grows(d, module, ir_function, block, list[0], context);
        if let Outcome::Done(e, next) = d.statement(module, ir_function, block, list[0], context) {
            let rest = list.subrange(1, list.len() as int);
            lemma_statements_grow(e, module, ir_function, next, rest, context);
        }
    }
}

/// Two lists of statements, each written as blocks of its own, behind blocks that were written
/// from `block`, and the start of a block behind them. The labels of the four were handed out
/// before, and are not among those from `first` to `last`.
proof fn lemma_pair_grows(
    d: Draft,
    block: BlockView,
    d1: Draft,
    d2: Draft,
    e: Draft,
    labels: (Word, Word, Word),
    first: Word,
    last: Word,
    extra: Option<Word>,
)
    requires
        d.writer.grows_to(d1.writer),
        d1.grows_to(|id: Word| same(labels.0, id), d2, |id: Word| 0),
        d2.grows_to(|id: Word| same(labels.1, id), e, |id: Word| 0),
        d.writer.id_count == first,
        first <= last <= d1.writer.id_count,
        last < labels.0 <= d1.writer.id_count,
        last < labels.1 <= d1.writer.id_count,
        last < labels.2 <= d1.writer.id_count,
        labels.0 != labels.1,
        labels.0 != labels.2,
        labels.1 != labels.2,
        extra matches Some(x) ==> last < x <= d1.writer.id_count && x != labels.0 && x != labels.1
            && x != labels.2,
        forall|id: Word|
            #![trigger d.definitions(id)]
            #![trigger d1.definitions(id)]
            numbered(
                first,
                last,
                d.definitions(id) + block.definitions(id) + (match extra {
                    Some(x) => same(x, id),
                    None => 0,
                }),
                d1.definitions(id),
                id,
            ),
    ensures
        d.grows_to(
            |id: Word| block.definitions(id),
            e,
            |id: Word| BlockView::start(labels.2).definitions(id),
        ),
{
    broadcast use group_growth;
    let start = BlockView::start(labels.2);
    assert(forall|id: Word| #[trigger] start.definitions(id) == same(labels.2, id));
    assert forall|id: Word|
        #![trigger d.definitions(id)]
        #![trigger e.definitions(id)]
        numbered(
            d.writer.id_count,
            e.writer.id_count,
            d.definitions(id) + block.definitions(id),
            e.definitions(id) + start.definitions(id),
            id,
        ) by {
        assert(start.definitions(id) == same(labels.2, id));
        assert(d1.definitions(id) == d1.definitions(id));
        assert(d2.definitions(id) == d2.definitions(id));
    }
}

pub proof fn lemma_statement_grows(
    d: Draft,
    module: Module,
    ir_function: IrFunction,
    block: BlockView,
    statement: Statement,
    context: LoopContext,
)
    requires
        block.termination is None,
    ensures
        d.grows_by(block, d.statement(module, ir_function, block, statement, context)),
    decreases statement, 2nat,
{
    broadcast use group_growth;
    match statement {
        Statement::Block(list) => {
            lemma_draft_generate(d);
            if let Outcome::Done(d1, scope_id) = d.generate_id() {
                let left = block.terminate(op_branch(scope_id));
                let d2 = d1.add(left);
                lemma_add_numbers(d1, left);
                assert(forall|id: Word| #[trigger] left.definitions(id) == block.definitions(id));
                lemma_draft_generate(d2);
                if let Outcome::Done(d3, merge_id) = d2.generate_id() {
                    lemma_block_grows(
                        d3,
                        module,
                        ir_function,
                        scope_id,
                        list@,
                        Some(merge_id),
                        context,
                    );
                    let start = BlockView::start(merge_id);
                    assert(forall|id: Word| #[trigger]
                        start.definitions(id) == same(merge_id, id));
                }
            }
        },
        Statement::If { condition, accept, reject } => {
            lemma_fork_grows(d, module, ir_function, block, condition);
            if let Outcome::Done(d1, ids) = d.fork(module, ir_function, block, condition) {
                let exit_id = Some(ids.2);
                let one = d1.block(module, ir_function, ids.0, accept@, exit_id, context);
                lemma_block_grows(d1, module, ir_function, ids.0, accept@, exit_id, context);
                if let Outcome::Done(d2, _) = one {
                    let two = d2.block(module, ir_function, ids.1, reject@, exit_id, context);
                    lemma_block_grows(d2, module, ir_function, ids.1, reject@, exit_id, context);
                    if let Outcome::Done(e, _) = two {
                        lemma_pair_grows(
                            d,
                            block,
                            d1,
                            d2,
                            e,
                            (ids.0, ids.1, ids.2),
                            d.writer.id_count,
                            (ids.2 - 1) as u32,
                            None,
                        );
                    }
                }
            }
        },
        Statement::Loop { body, continuing } => {
            lemma_enter_loop_grows(d, block);
            if let Outcome::Done(d1, ids) = d.enter_loop(block) {
                let inside = LoopContext { continuing_id: Some(ids.3), break_id: Some(ids.1) };
                let after = LoopContext { continuing_id: None, break_id: Some(ids.1) };
                let one = d1.block(module, ir_function, ids.2, body@, Some(ids.3), inside);
                lemma_block_grows(
                    d1,
                    module,
                    ir_function,
                    ids.2,
                    body@,
                    Some(ids.3),
                    inside,
                );
                if let Outcome::Done(d2, _) = one {
                    let again = Some(ids.0);
                    let two = d2.block(
                        module,
                        ir_function,
                        ids.3,
                        continuing@,
                        again,
                        after,
                    );
                    lemma_block_grows(
                        d2,
                        module,
                        ir_function,
                        ids.3,
                        continuing@,
                        again,
                        after,
                    );
                    if let Outcome::Done(e, _) = two {
                        lemma_pair_grows(
                            d,
                            block,
                            d1,
                            d2,
                            e,
                            (ids.2, ids.3, ids.1),
                            d.writer.id_count,
                            d.writer.id_count,
                            again,
                        );
                    }
                }
            }
        },
        Statement::Return { value: Some(value) } => {
            lemma_expression_grows(d, module, ir_function, block, value);
        },
        Statement::Store { pointer, value } => {
            lemma_store_grows(d, module, ir_function, block, pointer, value);
        },
        _ => {},
    }
}

impl FunctionView {
    /// Whether the blocks are those of `other`.
    pub open spec fn has_blocks_of(self, other: FunctionView) -> bool {
        self.blocks == other.blocks && self.signature == other.signature
    }
}

proof fn lemma_local_variables_grow(d: Draft, module: Module, ir_function: IrFunction, i: nat)
    ensures
        d.grows_by_itself(d.local_variables(module, ir_function, i)),
        d.local_variables(module, ir_function, i) matches Outcome::Done(e, _)
            ==> e.function.has_blocks_of(d.function),
    decreases ir_function.local_variables.count() - i,
{
    broadcast use group_growth;
    if i < ir_function.local_variables.count() {
        let variable = ir_function.local_variables.data@[i as int];
        lemma_draft_generate(d);
        if let Outcome::Done(d1, id) = d.generate_id() {
            let w1 = d1.writer.name(id, variable.name);
            lemma_initializer_grows(w1, module, variable.init);
            if let Outcome::Done(w2, init) = w1.initializer_id(module, variable.init) {
                lemma_pointer_id_grows(w2, module.types, variable.ty, VariableClass::Function);
                if let Outcome::Done(w3, pointer_type_id) = w2.pointer_id(
                    module.types,
                    variable.ty,
                    VariableClass::Function,
                ) {
                    let instruction = op_variable(
                        pointer_type_id,
                        id,
                        spirv::StorageClass::Function,
                        init,
                    );
                    let d3 = Draft { writer: w3, function: d.function };
                    let d4 = d3.with_variable(id, instruction);
                    lemma_variable_numbers(d3, id, instruction);
                    assert(forall|x: Word| #[trigger]
                        d3.definitions(x) == w3.definitions(x) + d.function.definitions(x));
                    assert(forall|x: Word| #[trigger]
                        d.definitions(x) == d.writer.definitions(x) + d.function.definitions(x));
                    lemma_local_variables_grow(d4, module, ir_function, i + 1);
                }
            }
        }
    }
}

proof fn lemma_variable_numbers(d: Draft, variable: Word, instruction: InstructionView)
    ensures
        forall|id: Word| #[trigger]
            d.with_variable(variable, instruction).definitions(id) == d.definitions(id) + defines(
                instruction,
                id,
            ),
{
    let f = |variable: (Word, InstructionView)| variable.1;
    let before = d.function.variables;
    assert(before.push((variable, instruction)).map_values(f) =~= before.map_values(f).push(
        instruction,
    ));
    assert forall|id: Word| #[trigger]
        d.with_variable(variable, instruction).definitions(id) == d.definitions(id) + defines(
            instruction,
            id,
        ) by {
        lemma_definitions_push(before.map_values(f), instruction, id);
    }
}

proof fn lemma_parameter_numbers(d: Draft, instruction: InstructionView)
    ensures
        forall|id: Word| #[trigger]
            d.with_parameter(instruction).definitions(id) == d.definitions(id) + defines(
                instruction,
                id,
            ),
{
    assert forall|id: Word| #[trigger]
        d.with_parameter(instruction).definitions(id) == d.definitions(id) + defines(
            instruction,
            id,
        ) by {
        lemma_definitions_push(d.function.parameters, instruction, id);
    }
}

proof fn lemma_arguments_grow(
    d: Draft,
    module: Module,
    ir_function: IrFunction,
    i: nat,
    type_ids: Seq<Word>,
)
    ensures
        d.grows_by_itself(d.arguments(module, ir_function, i, type_ids)),
        d.arguments(module, ir_function, i, type_ids) matches Outcome::Done(e, _)
            ==> e.function.has_blocks_of(d.function),
    decreases ir_function.arguments@.len() - i,
{
    broadcast use group_growth;
    if i < ir_function.arguments@.len() {
        let ty = LookupType::Handle(ir_function.arguments@[i as int].ty);
        lemma_draft_generate(d);
        if let Outcome::Done(d1, id) = d.generate_id() {
            lemma_type_id_grows(d1.writer, module.types, ty);
            if let Outcome::Done(w2, type_id) = d1.writer.type_id(module.types, ty) {
                let d2 = Draft { writer: w2, function: d.function };
                let instruction = op_function_parameter(type_id, id);
                let d3 = d2.with_parameter(instruction);
                lemma_parameter_numbers(d2, instruction);
                assert(forall|x: Word| #[trigger]
                    d2.definitions(x) == w2.definitions(x) + d.function.definitions(x));
                assert(forall|x: Word| #[trigger]
                    d.definitions(x) == d.writer.definitions(x) + d.function.definitions(x));
                lemma_arguments_grow(d3, module, ir_function, i + 1, type_ids.push(type_id));
            }
        }
    }
}

/// A step of the writer that leaves the function as it is.
proof fn lemma_drafting<T>(d: Draft, step: Outcome<WriterView, T>)
    requires
        d.writer.grows_by(step),
    ensures
        d.grows_by_itself(drafting(step, d.function)),
{
    if let Outcome::Done(e, _) = drafting(step, d.function) {
        assert(forall|x: Word| #[trigger]
            e.definitions(x) == e.writer.definitions(x) + d.function.definitions(x));
        assert(forall|x: Word| #[trigger]
            d.definitions(x) == d.writer.definitions(x) + d.function.definitions(x));
    }
}

pub proof fn lemma_signature_grows(d: Draft, module: Module, ir_function: IrFunction)
    requires
        d.function.signature is None,
    ensures
        d.grows_by_itself(d.signature(module, ir_function)),
        d.signature(module, ir_function) matches Outcome::Done(e, id) ==> e.function.blocks
            == d.function.blocks && (e.function.signature matches Some(instruction)
            && instruction.op == spirv::Op::Function && instruction.result_id == Some(id)),
{
    broadcast use group_growth;
    lemma_local_variables_grow(d, module, ir_function, 0);
    if let Outcome::Done(d1, _) = d.local_variables(module, ir_function, 0) {
        let step = d1.writer.return_type_id(module.types, ir_function.return_type);
        lemma_return_type_grows(d1.writer, module.types, ir_function.return_type);
        lemma_drafting(d1, step);
        if let Outcome::Done(d2, return_type_id) = drafting(step, d1.function) {
            lemma_arguments_grow(d2, module, ir_function, 0, Seq::empty());
            if let Outcome::Done(d3, ids) = d2.arguments(module, ir_function, 0, Seq::empty()) {
                lemma_draft_generate(d3);
                if let Outcome::Done(d4, id) = d3.generate_id() {
                    let step = d4.writer.function_type_id(ids, return_type_id);
                    lemma_function_type_grows(d4.writer, ids, return_type_id);
                    lemma_drafting(d4, step);
                    if let Outcome::Done(d5, type_id) = drafting(step, d4.function) {
                        if let Outcome::Done(e, _) = d.signature(module, ir_function) {
                            assert(forall|x: Word| #[trigger]
                                e.definitions(x) == d5.definitions(x) + same(id, x));
                        }
                    }
                }
            }
        }
    }
}

proof fn lemma_block_instructions(
    blocks: Seq<BlockView>,
    variables: Seq<InstructionView>,
    id: Word,
)
    requires
        forall|i: int| 0 <= i < blocks.len() ==> (#[trigger] blocks[i]).termination is Some,
    ensures
        definitions(block_instructions(blocks, variables), id) <= block_definitions(blocks, id)
            + definitions(variables, id),
        blocks.len() == 0 ==> block_instructions(blocks, variables) == Seq::<
            InstructionView,
        >::empty(),
    decreases blocks.len(),
{
    if blocks.len() > 0 {
        let first = blocks.drop_last();
        let block = blocks.last();
        let own = if blocks.len() == 1 {
            variables
        } else {
            Seq::empty()
        };
        lemma_block_instructions(first, variables, id);
        lemma_definitions_add(
            block_instructions(first, variables),
            block.instructions(own),
            id,
        );
        let label = seq![op_label(block.label_id)];
        let end = seq![block.termination->0];
        lemma_definitions_add(label, own, id);
        lemma_definitions_add(label + own, block.body, id);
        lemma_definitions_add(label + own + block.body, end, id);
        lemma_one(op_label(block.label_id), id);
        lemma_one(block.termination->0, id);
        assert(block.termination is Some);
    }
}

proof fn lemma_one(instruction: InstructionView, id: Word)
    ensures
        definitions(seq![instruction], id) == defines(instruction, id),
{
    assert(seq![instruction] =~= Seq::empty().push(instruction));
    lemma_definitions_push(Seq::empty(), instruction, id);
}

proof fn lemma_function_instructions(function: FunctionView, id: Word)
    requires
        function.signature is Some,
        function.is_terminated(),
    ensures
        definitions(function.instructions().push(op_function_end()), id) <= function.definitions(
            id,
        ),
{
    let variables = function.variables.map_values(
        |variable: (Word, InstructionView)| variable.1,
    );
    let start = seq![function.signature->0];
    lemma_one(function.signature->0, id);
    lemma_definitions_add(start, function.parameters, id);
    lemma_definitions_add(
        start + function.parameters,
        block_instructions(function.blocks, variables),
        id,
    );
    lemma_block_instructions(function.blocks, variables, id);
    lemma_definitions_push(function.instructions(), op_function_end(), id);
}

pub proof fn lemma_draft_function_grows(d: Draft, module: Module, ir_function: IrFunction)
    requires
        d.function == FunctionView::empty(),
    ensures
        d.grows_by_itself(d.function(module, ir_function)),
        d.function(module, ir_function) matches Outcome::Done(e, id) ==> e.function.is_whole(id),
{
    broadcast use group_growth;
    lemma_signature_grows(d, module, ir_function);
    if let Outcome::Done(d1, id) = d.signature(module, ir_function) {
        lemma_draft_generate(d1);
        if let Outcome::Done(d2, main_id) = d1.generate_id() {
            let outside = LoopContext::outside();
            let body = ir_function.body@;
            lemma_block_grows(d2, module, ir_function, main_id, body, None, outside);
            law_blocks_are_left(d2, module, ir_function, main_id, body, None, outside);
            reveal(FunctionView::gains_blocks);
        }
    }
}

impl FunctionView {
    /// Whether the function is complete and has the identifier `id`.
    pub open spec fn is_whole(self, id: Word) -> bool {
        &&& self.signature matches Some(instruction) && instruction.op == spirv::Op::Function
            && instruction.result_id == Some(id)
        &&& self.is_terminated()
    }
}

/// Whether a step keeps what was written before, defines each identifier once, and writes all of
/// a function behind the others, or nothing of it if the function is refused.
pub open spec fn writes_function(w: WriterView, step: Outcome<WriterView, Word>) -> bool {
    match step {
        Outcome::Done(v, id) => w.is_numbered_by(v) && exists|x: WriterView, function: FunctionView|
            w.is_kept_by(x) && function.is_whole(id) && v == #[trigger] x.define(
                function.instructions().push(op_function_end()),
            ),
        Outcome::Fail(v, _) => w.grows_to(v),
        Outcome::Stuck => true,
    }
}

/// What is written for a function keeps what was written before, and defines each identifier
/// once.
pub proof fn lemma_function_grows(w: WriterView, module: Module, ir_function: IrFunction)
    ensures
        writes_function(w, w.function(module, ir_function)),
{
    broadcast use group_growth;
    reveal(WriterView::function);
    let d = Draft { writer: w, function: FunctionView::empty() };
    lemma_draft_function_grows(d, module, ir_function);
    assert(FunctionView::empty().variables.map_values(
        |variable: (Word, InstructionView)| variable.1,
    ) =~= Seq::empty());
    assert(forall|id: Word| #[trigger] d.definitions(id) == w.definitions(id));
    if let Outcome::Done(e, id) = d.function(module, ir_function) {
        let list = e.function.instructions().push(op_function_end());
        let v = e.writer.define(list);
        assert forall|id: Word|
            #![trigger w.definitions(id)]
            #![trigger v.definitions(id)]
            numbered(w.id_count, v.id_count, w.definitions(id), v.definitions(id), id) by {
            lemma_function_instructions(e.function, id);
            assert(d.definitions(id) == w.definitions(id));
            assert(e.definitions(id) == e.writer.definitions(id) + e.function.definitions(id));
            lemma_definitions_kept(w, e.writer, id);
        }
        assert(w.is_kept_by(e.writer) && e.function.is_whole(id) && v == e.writer.define(
            e.function.instructions().push(op_function_end()),
        ));
    }
}

} // verus!

//! Writing statements.

use crate::arena::Handle;
use crate::headers::selection_control_none;
use crate::ir::{Expression, Function as IrFunction, Module, Statement};
use crate::spv::error::Error;
use crate::spv::expressions::{Cursor, Scope};
use crate::spv::function::{
    lemma_gains_block, lemma_gains_more, lemma_gains_nothing, Block, BlockView, Function,
    FunctionView, LoopContext,
};
use crate::spv::instructions::{
    instruction_branch, instruction_branch_conditional, instruction_loop_merge,
    instruction_return, instruction_return_value, instruction_selection_merge, instruction_store,
    op_branch, op_branch_conditional, op_loop_merge, op_return, op_return_value,
    op_selection_merge, op_store,
};
use crate::spv::lookup::LookupType;
use crate::spv::model::{not_implemented, outcome, Outcome, WriterView};
use crate::spv::words::Word;
use crate::spv::writer::Writer;
use spirv_headers as spirv;
use vstd::prelude::*;

verus! {

/// The writer while it writes a function, and the function as far as it is written.
#[verifier::ext_equal]
pub struct Draft {
    pub writer: WriterView,
    pub function: FunctionView,
}

/// A step of the writer that leaves the function as it is.
pub open spec fn drafting<T>(step: Outcome<WriterView, T>, function: FunctionView) -> Outcome<
    Draft,
    T,
> {
    match step {
        Outcome::Done(writer, result) => Outcome::Done(Draft { writer, function }, result),
        Outcome::Fail(writer, failure) => Outcome::Fail(Draft { writer, function }, failure),
        Outcome::Stuck => Outcome::Stuck,
    }
}

/// The block as an expression leaves it, and what the expression results in.
pub open spec fn evaluated<T>(step: Outcome<Cursor, T>, function: FunctionView) -> Outcome<
    Draft,
    (BlockView, T),
> {
    match step {
        Outcome::Done(c, result) => Outcome::Done(
            Draft { writer: c.writer, function },
            (c.block, result),
        ),
        Outcome::Fail(c, failure) => Outcome::Fail(Draft { writer: c.writer, function }, failure),
        Outcome::Stuck => Outcome::Stuck,
    }
}

impl Draft {
    /// What the expressions of `ir_function` can refer to.
    pub open spec fn scope(self, module: Module, ir_function: IrFunction) -> Scope {
        Scope { module, ir_function, function: self.function }
    }

    /// Hands out the next identifier.
    pub open spec fn generate_id(self) -> Outcome<Draft, Word> {
        drafting(self.writer.generate_id(), self.function)
    }

    /// Appends a block to the function.
    pub open spec fn add(self, block: BlockView) -> Draft {
        Draft { function: self.function.add(block), ..self }
    }

    /// Appends the value of an expression to a block.
    pub open spec fn expression(
        self,
        module: Module,
        ir_function: IrFunction,
        block: BlockView,
        handle: Handle<Expression>,
    ) -> Outcome<Draft, (BlockView, (Word, LookupType))> {
        evaluated(
            (Cursor { writer: self.writer, block }).expression(
                self.scope(module, ir_function),
                handle,
            ),
            self.function,
        )
    }

    /// Appends a pointer to the value of an expression to a block.
    pub open spec fn expression_pointer(
        self,
        module: Module,
        ir_function: IrFunction,
        block: BlockView,
        handle: Handle<Expression>,
    ) -> Outcome<Draft, (BlockView, (Word, LookupType, spirv::StorageClass))> {
        evaluated(
            (Cursor { writer: self.writer, block }).expression_pointer(
                self.scope(module, ir_function),
                handle,
            ),
            self.function,
        )
    }

    /// Writes statements as blocks of their own, the first of them labeled `label_id`. At their
    /// end control moves to `exit_id`, or returns from the function if there is none.
    pub open spec fn block(
        self,
        module: Module,
        ir_function: IrFunction,
        label_id: Word,
        list: Seq<Statement>,
        exit_id: Option<Word>,
        context: LoopContext,
    ) -> Outcome<Draft, ()>
        decreases list, 1nat,
    {
        self.statements(module, ir_function, BlockView::start(label_id), list, context).bind(
            |d: Draft, block: BlockView| Outcome::Done(d.add(closed_block(block, exit_id)), ()),
        )
    }

    /// Appends statements to a block. The result is the block that control is in at their end.
    /// No statement follows one after which control is elsewhere.
    pub open spec fn statements(
        self,
        module: Module,
        ir_function: IrFunction,
        block: BlockView,
        list: Seq<Statement>,
        context: LoopContext,
    ) -> Outcome<Draft, BlockView>
        decreases list, 0nat,
    {
        if list.len() == 0 {
            Outcome::Done(self, block)
        } else if block.termination is Some {
            Outcome::Stuck
        } else {
            self.statement(module, ir_function, block, list[0], context).bind(
                |d: Draft, block: BlockView|
                    d.statements(
                        module,
                        ir_function,
                        block,
                        list.subrange(1, list.len() as int),
                        context,
                    ),
            )
        }
    }

    /// Appends a statement to a block. The result is the block that control is in at its end.
    pub open spec fn statement(
        self,
        module: Module,
        ir_function: IrFunction,
        block: BlockView,
        statement: Statement,
        context: LoopContext,
    ) -> Outcome<Draft, BlockView>
        decreases statement, 2nat,
    {
        match statement {
            Statement::Block(list) => self.generate_id().bind(
                |d: Draft, scope_id: Word|
                    d.add(block.terminate(op_branch(scope_id))).generate_id().bind(
                        |d: Draft, merge_id: Word|
                            d.block(
                                module,
                                ir_function,
                                scope_id,
                                list@,
                                Some(merge_id),
                                context,
                            ).bind(|d: Draft, _u: ()| Outcome::Done(d, BlockView::start(merge_id))),
                    ),
            ),
            Statement::If { condition, accept, reject } => self.fork(
                module,
                ir_function,
                block,
                condition,
            ).bind(
                |d: Draft, ids: (Word, Word, Word)|
                    d.block(module, ir_function, ids.0, accept@, Some(ids.2), context).bind(
                        |d: Draft, _u: ()|
                            d.block(
                                module,
                                ir_function,
                                ids.1,
                                reject@,
                                Some(ids.2),
                                context,
                            ).bind(|d: Draft, _u: ()| Outcome::Done(d, BlockView::start(ids.2))),
                    ),
            ),
            Statement::Loop { body, continuing } => self.enter_loop(block).bind(
                |d: Draft, ids: (Word, Word, Word, Word)|
                    d.block(
                        module,
                        ir_function,
                        ids.2,
                        body@,
                        Some(ids.3),
                        LoopContext { continuing_id: Some(ids.3), break_id: Some(ids.1) },
                    ).bind(
                        |d: Draft, _u: ()|
                            d.block(
                                module,
                                ir_function,
                                ids.3,
                                continuing@,
                                Some(ids.0),
                                LoopContext { continuing_id: None, break_id: Some(ids.1) },
                            ).bind(|d: Draft, _u: ()| Outcome::Done(d, BlockView::start(ids.1))),
                    ),
            ),
            Statement::Break => match context.break_id {
                Some(id) => Outcome::Done(self, block.terminate(op_branch(id))),
                None => Outcome::Stuck,
            },
            Statement::Continue => match context.continuing_id {
                Some(id) => Outcome::Done(self, block.terminate(op_branch(id))),
                None => Outcome::Stuck,
            },
            Statement::Return { value: Some(value) } => self.expression(
                module,
                ir_function,
                block,
                value,
            ).bind(
                |d: Draft, written: (BlockView, (Word, LookupType))|
                    Outcome::Done(d, written.0.terminate(op_return_value(written.1.0))),
            ),
            Statement::Return { value: None } => Outcome::Done(self, block.terminate(op_return())),
            Statement::Store { pointer, value } => self.store(
                module,
                ir_function,
                block,
                pointer,
                value,
            ),
            _ => not_implemented(self, "statement"@),
        }
    }

    /// Leaves a block for one of two others, by a condition. The result is the labels of the
    /// block where the condition holds, of the one where it does not, and of the one where both
    /// meet again.
    #[verifier::opaque]
    pub open spec fn fork(
        self,
        module: Module,
        ir_function: IrFunction,
        block: BlockView,
        condition: Handle<Expression>,
    ) -> Outcome<Draft, (Word, Word, Word)> {
        self.expression(module, ir_function, block, condition).bind(
            |d: Draft, written: (BlockView, (Word, LookupType))|
                d.generate_id().bind(
                    |d: Draft, merge_id: Word|
                        d.generate_id().bind(
                            |d: Draft, accept_id: Word|
                                d.generate_id().bind(
                                    |d: Draft, reject_id: Word|
                                        Outcome::Done(
                                            d.add(
                                                written.0.emit(
                                                    op_selection_merge(merge_id, 0),
                                                ).terminate(
                                                    op_branch_conditional(
                                                        written.1.0,
                                                        accept_id,
                                                        reject_id,
                                                    ),
                                                ),
                                            ),
                                            (accept_id, reject_id, merge_id),
                                        ),
                                ),
                        ),
                ),
        )
    }

    /// Leaves a block for a loop. The result is the labels of the block at the start of the
    /// loop, of the one behind it, of its body, and of what comes before it starts over.
    #[verifier::opaque]
    pub open spec fn enter_loop(self, block: BlockView) -> Outcome<
        Draft,
        (Word, Word, Word, Word),
    > {
        self.generate_id().bind(
            |d: Draft, preamble_id: Word|
                d.add(block.terminate(op_branch(preamble_id))).generate_id().bind(
                    |d: Draft, merge_id: Word|
                        d.generate_id().bind(
                            |d: Draft, body_id: Word|
                                d.generate_id().bind(
                                    |d: Draft, continuing_id: Word|
                                        Outcome::Done(
                                            d.add(
                                                BlockView::start(preamble_id).emit(
                                                    op_loop_merge(merge_id, continuing_id, 0),
                                                ).terminate(op_branch(body_id)),
                                            ),
                                            (preamble_id, merge_id, body_id, continuing_id),
                                        ),
                                ),
                        ),
                ),
        )
    }

    /// Stores a value where a pointer leads.
    #[verifier::opaque]
    pub open spec fn store(
        self,
        module: Module,
        ir_function: IrFunction,
        block: BlockView,
        pointer: Handle<Expression>,
        value: Handle<Expression>,
    ) -> Outcome<Draft, BlockView> {
        self.expression_pointer(module, ir_function, block, pointer).bind(
            |d: Draft, target: (BlockView, (Word, LookupType, spirv::StorageClass))|
                d.expression(module, ir_function, target.0, value).bind(
                    |d: Draft, written: (BlockView, (Word, LookupType))|
                        Outcome::Done(d, written.0.emit(op_store(target.1.0, written.1.0))),
                ),
        )
    }
}

/// A block that is left at its end, if not before: for `exit_id`, or from the function if there
/// is no such block.
pub open spec fn closed_block(block: BlockView, exit_id: Option<Word>) -> BlockView {
    match (block.termination, exit_id) {
        (Some(_), _) => block,
        (None, Some(id)) => block.terminate(op_branch(id)),
        (None, None) => block.terminate(op_return()),
    }
}

/// Whether a step adds nothing to the function but blocks that are left by known instructions.
pub open spec fn gains_blocks<T>(before: FunctionView, step: Outcome<Draft, T>) -> bool {
    match step {
        Outcome::Done(d, _) => before.gains_blocks(d.function),
        Outcome::Fail(d, _) => before.gains_blocks(d.function),
        Outcome::Stuck => true,
    }
}

/// Statements add nothing to a function but blocks, and each of these ends with an instruction
/// that leaves it.
pub proof fn law_blocks_are_left(
    d: Draft,
    module: Module,
    ir_function: IrFunction,
    label_id: Word,
    list: Seq<Statement>,
    exit_id: Option<Word>,
    context: LoopContext,
)
    ensures
        gains_blocks(
            d.function,
            d.block(module, ir_function, label_id, list, exit_id, context),
        ),
    decreases list, 1nat,
{
    let start = BlockView::start(label_id);
    lemma_statements_gain_blocks(d, module, ir_function, start, list, context);
    if let Outcome::Done(e, block) = d.statements(module, ir_function, start, list, context) {
        lemma_gains_block(d.function, e.function, closed_block(block, exit_id));
    }
}

pub proof fn lemma_statements_gain_blocks(
    d: Draft,
    module: Module,
    ir_function: IrFunction,
    block: BlockView,
    list: Seq<Statement>,
    context: LoopContext,
)
    ensures
        gains_blocks(d.function, d.statements(module, ir_function, block, list, context)),
    decreases list, 0nat,
{
    lemma_gains_nothing(d.function);
    if list.len() > 0 && block.termination is None {
        lemma_statement_gains_blocks(d, module, ir_function, block, list[0], context);
        if let Outcome::Done(e, next) = d.statement(module, ir_function, block, list[0], context) {
            let rest = list.subrange(1, list.len() as int);
            lemma_statements_gain_blocks(e, module, ir_function, next, rest, context);
            let whole = e.statements(module, ir_function, next, rest, context);
            lemma_then(d.function, e, whole);
        }
    }
}

/// A step that adds blocks after others were added.
proof fn lemma_then<T>(before: FunctionView, middle: Draft, step: Outcome<Draft, T>)
    requires
        before.gains_blocks(middle.function),
        gains_blocks(middle.function, step),
    ensures
        gains_blocks(before, step),
{
    match step {
        Outcome::Done(d, _) => {
            lemma_gains_more(before, middle.function, d.function);
        },
        Outcome::Fail(d, _) => {
            lemma_gains_more(before, middle.function, d.function);
        },
        Outcome::Stuck => {},
    }
}

proof fn lemma_fork_gains_block(
    d: Draft,
    module: Module,
    ir_function: IrFunction,
    block: BlockView,
    condition: Handle<Expression>,
)
    ensures
        gains_blocks(d.function, d.fork(module, ir_function, block, condition)),
{
    reveal(FunctionView::gains_blocks);
    reveal(Draft::fork);
}

proof fn lemma_loop_gains_blocks(d: Draft, block: BlockView)
    ensures
        gains_blocks(d.function, d.enter_loop(block)),
{
    reveal(FunctionView::gains_blocks);
    reveal(Draft::enter_loop);
}

proof fn lemma_store_gains_nothing(
    d: Draft,
    module: Module,
    ir_function: IrFunction,
    block: BlockView,
    pointer: Handle<Expression>,
    value: Handle<Expression>,
)
    ensures
        gains_blocks(d.function, d.store(module, ir_function, block, pointer, value)),
{
    lemma_gains_nothing(d.function);
    reveal(Draft::store);
}

pub proof fn lemma_statement_gains_blocks(
    d: Draft,
    module: Module,
    ir_function: IrFunction,
    block: BlockView,
    statement: Statement,
    context: LoopContext,
)
    ensures
        gains_blocks(d.function, d.statement(module, ir_function, block, statement, context)),
    decreases statement, 2nat,
{
    lemma_gains_nothing(d.function);
    match statement {
        Statement::Block(list) => {
            if let Outcome::Done(d1, scope_id) = d.generate_id() {
                let left = block.terminate(op_branch(scope_id));
                lemma_gains_block(d.function, d1.function, left);
                if let Outcome::Done(d2, merge_id) = d1.add(left).generate_id() {
                    let exit_id = Some(merge_id);
                    let step = d2.block(module, ir_function, scope_id, list@, exit_id, context);
                    law_blocks_are_left(
                        d2,
                        module,
                        ir_function,
                        scope_id,
                        list@,
                        exit_id,
                        context,
                    );
                    lemma_then(d.function, d2, step);
                }
            }
        },
        Statement::If { condition, accept, reject } => {
            lemma_fork_gains_block(d, module, ir_function, block, condition);
            if let Outcome::Done(d1, ids) = d.fork(module, ir_function, block, condition) {
                let exit_id = Some(ids.2);
                let one = d1.block(module, ir_function, ids.0, accept@, exit_id, context);
                law_blocks_are_left(d1, module, ir_function, ids.0, accept@, exit_id, context);
                lemma_then(d.function, d1, one);
                if let Outcome::Done(d2, _) = one {
                    let two = d2.block(module, ir_function, ids.1, reject@, exit_id, context);
                    law_blocks_are_left(d2, module, ir_function, ids.1, reject@, exit_id, context);
                    lemma_then(d.function, d2, two);
                }
            }
        },
        Statement::Loop { body, continuing } => {
            lemma_loop_gains_blocks(d, block);
            if let Outcome::Done(d1, ids) = d.enter_loop(block) {
                let inside = LoopContext { continuing_id: Some(ids.3), break_id: Some(ids.1) };
                let after = LoopContext { continuing_id: None, break_id: Some(ids.1) };
                let one = d1.block(module, ir_function, ids.2, body@, Some(ids.3), inside);
                law_blocks_are_left(
                    d1,
                    module,
                    ir_function,
                    ids.2,
                    body@,
                    Some(ids.3),
                    inside,
                );
                lemma_then(d.function, d1, one);
                if let Outcome::Done(d2, _) = one {
                    let two = d2.block(
                        module,
                        ir_function,
                        ids.3,
                        continuing@,
                        Some(ids.0),
                        after,
                    );
                    law_blocks_are_left(
                        d2,
                        module,
                        ir_function,
                        ids.3,
                        continuing@,
                        Some(ids.0),
                        after,
                    );
                    lemma_then(d.function, d2, two);
                }
            }
        },
        Statement::Store { pointer, value } => {
            lemma_store_gains_nothing(d, module, ir_function, block, pointer, value);
        },
        _ => {},
    }
}

/// How a step ended that returned a block.
pub open spec fn blocked(state: Draft, result: Result<Block, Error>) -> Outcome<Draft, BlockView> {
    match result {
        Ok(block) => Outcome::Done(state, block@),
        Err(error) => Outcome::Fail(state, error@),
    }
}

/// The writer while it writes a function.
pub open spec fn draft(writer: WriterView, function: FunctionView) -> Draft {
    Draft { writer, function }
}

impl Writer {
    /// Leaves a block for one of two others, by a condition.
    fn write_fork(
        &mut self,
        condition: Handle<Expression>,
        block: Block,
        module: &Module,
        ir_function: &IrFunction,
        function: &mut Function,
    ) -> (result: Result<(Word, Word, Word), Error>)
        requires
            !(draft(old(self)@, old(function)@).fork(
                *module,
                *ir_function,
                block@,
                condition,
            ) is Stuck),
        ensures
            outcome(draft(final(self)@, final(function)@), result) == draft(
                old(self)@,
                old(function)@,
            ).fork(*module, *ir_function, block@, condition),
    {
        proof {
            reveal(Draft::fork);
        }
        let mut block = block;
        let (condition_id, _) = self.write_expression(
            module,
            ir_function,
            condition,
            &mut block,
            &*function,
        )?;
        let merge_id = self.generate_id();
        block.push(instruction_selection_merge(merge_id, selection_control_none()));
        let accept_id = self.generate_id();
        let reject_id = self.generate_id();
        function.consume(
            block,
            instruction_branch_conditional(condition_id, accept_id, reject_id),
        );
        Ok((accept_id, reject_id, merge_id))
    }

    /// Leaves a block for a loop.
    fn write_loop_entry(&mut self, block: Block, function: &mut Function) -> (ids: (
        Word,
        Word,
        Word,
        Word,
    ))
        requires
            !(draft(old(self)@, old(function)@).enter_loop(block@) is Stuck),
        ensures
            Outcome::Done(draft(final(self)@, final(function)@), ids) == draft(
                old(self)@,
                old(function)@,
            ).enter_loop(block@),
    {
        proof {
            reveal(Draft::enter_loop);
        }
        let preamble_id = self.generate_id();
        function.consume(block, instruction_branch(preamble_id));
        let merge_id = self.generate_id();
        let body_id = self.generate_id();
        let continuing_id = self.generate_id();
        // The merge instruction has to stand in a block of its own, which the loop starts with.
        let mut preamble = Block::new(preamble_id);
        preamble.push(instruction_loop_merge(merge_id, continuing_id, selection_control_none()));
        function.consume(preamble, instruction_branch(body_id));
        (preamble_id, merge_id, body_id, continuing_id)
    }

    /// Stores a value where a pointer leads.
    fn write_store(
        &mut self,
        pointer: Handle<Expression>,
        value: Handle<Expression>,
        block: Block,
        module: &Module,
        ir_function: &IrFunction,
        function: &Function,
    ) -> (result: Result<Block, Error>)
        requires
            !(draft(old(self)@, function@).store(
                *module,
                *ir_function,
                block@,
                pointer,
                value,
            ) is Stuck),
        ensures
            blocked(draft(final(self)@, function@), result) == draft(
                old(self)@,
                function@,
            ).store(*module, *ir_function, block@, pointer, value),
    {
        proof {
            reveal(Draft::store);
        }
        let mut block = block;
        let (pointer_id, _, _) = self.write_expression_pointer(
            module,
            ir_function,
            pointer,
            &mut block,
            function,
        )?;
        let (value_id, _) = self.write_expression(
            module,
            ir_function,
            value,
            &mut block,
            function,
        )?;
        block.push(instruction_store(pointer_id, value_id));
        Ok(block)
    }

    /// Appends a statement to a block, and returns the block that control is in at its end.
    fn write_statement(
        &mut self,
        statement: &Statement,
        block: Block,
        module: &Module,
        ir_function: &IrFunction,
        function: &mut Function,
        context: LoopContext,
    ) -> (result: Result<Block, Error>)
        requires
            !(draft(old(self)@, old(function)@).statement(
                *module,
                *ir_function,
                block@,
                *statement,
                context,
            ) is Stuck),
        ensures
            blocked(draft(final(self)@, final(function)@), result) == draft(
                old(self)@,
                old(function)@,
            ).statement(*module, *ir_function, block@, *statement, context),
        decreases statement, 2nat,
    {
        match statement {
            Statement::Block(list) => {
                let scope_id = self.generate_id();
                function.consume(block, instruction_branch(scope_id));
                let merge_id = self.generate_id();
                self.write_block(
                    scope_id,
                    list,
                    module,
                    ir_function,
                    function,
                    Some(merge_id),
                    context,
                )?;
                Ok(Block::new(merge_id))
            },
            Statement::If { condition, accept, reject } => {
                let (accept_id, reject_id, merge_id) = self.write_fork(
                    *condition,
                    block,
                    module,
                    ir_function,
                    function,
                )?;
                self.write_block(
                    accept_id,
                    accept,
                    module,
                    ir_function,
                    function,
                    Some(merge_id),
                    context,
                )?;
                self.write_block(
                    reject_id,
                    reject,
                    module,
                    ir_function,
                    function,
                    Some(merge_id),
                    context,
                )?;
                Ok(Block::new(merge_id))
            },
            Statement::Loop { body, continuing } => {
                let (preamble_id, merge_id, body_id, continuing_id) = self.write_loop_entry(
                    block,
                    function,
                );
                self.write_block(
                    body_id,
                    body,
                    module,
                    ir_function,
                    function,
                    Some(continuing_id),
                    LoopContext { continuing_id: Some(continuing_id), break_id: Some(merge_id) },
                )?;
                self.write_block(
                    continuing_id,
                    continuing,
                    module,
                    ir_function,
                    function,
                    Some(preamble_id),
                    LoopContext { continuing_id: None, break_id: Some(merge_id) },
                )?;
                Ok(Block::new(merge_id))
            },
            Statement::Break => {
                let mut block = block;
                if let Some(id) = context.break_id {
                    block.terminate(instruction_branch(id));
                }
                Ok(block)
            },
            Statement::Continue => {
                let mut block = block;
                if let Some(id) = context.continuing_id {
                    block.terminate(instruction_branch(id));
                }
                Ok(block)
            },
            Statement::Return { value } => {
                let mut block = block;
                match value {
                    Some(value) => {
                        let (id, _) = self.write_expression(
                            module,
                            ir_function,
                            *value,
                            &mut block,
                            &*function,
                        )?;
                        block.terminate(instruction_return_value(id));
                    },
                    None => {
                        block.terminate(instruction_return());
                    },
                }
                Ok(block)
            },
            Statement::Store { pointer, value } => self.write_store(
                *pointer,
                *value,
                block,
                module,
                ir_function,
                &*function,
            ),
            _ => Err(Error::FeatureNotImplemented("statement")),
        }
    }

    /// Writes statements as blocks of their own, the first of them labeled `label_id`. At their
    /// end control moves to `exit_id`, or returns from the function if there is none.
    pub fn write_block(
        &mut self,
        label_id: Word,
        statements: &Vec<Statement>,
        module: &Module,
        ir_function: &IrFunction,
        function: &mut Function,
        exit_id: Option<Word>,
        context: LoopContext,
    ) -> (result: Result<(), Error>)
        requires
            !(draft(old(self)@, old(function)@).block(
                *module,
                *ir_function,
                label_id,
                statements@,
                exit_id,
                context,
            ) is Stuck),
        ensures
            outcome(draft(final(self)@, final(function)@), result) == draft(
                old(self)@,
                old(function)@,
            ).block(*module, *ir_function, label_id, statements@, exit_id, context),
        decreases statements, 1nat,
    {
        let mut block = Block::new(label_id);
        let ghost whole = draft(self@, function@).statements(
            *module,
            *ir_function,
            block@,
            statements@,
            context,
        );
        let mut i: usize = 0;
        assert(statements@.subrange(0, statements@.len() as int) =~= statements@);
        while i < statements.len()
            invariant
                i <= statements@.len(),
                !(whole is Stuck),
                whole == draft(old(self)@, old(function)@).statements(
                    *module,
                    *ir_function,
                    BlockView::start(label_id),
                    statements@,
                    context,
                ),
                whole == draft(self@, function@).statements(
                    *module,
                    *ir_function,
                    block@,
                    statements@.subrange(i as int, statements@.len() as int),
                    context,
                ),
            decreases statements@.len() - i,
        {
            let ghost rest = statements@.subrange(i as int, statements@.len() as int);
            assert(rest[0] == statements@[i as int]);
            assert(rest.subrange(1, rest.len() as int) =~= statements@.subrange(
                i + 1,
                statements@.len() as int,
            ));
            block = self.write_statement(
                &statements[i],
                block,
                module,
                ir_function,
                function,
                context,
            )?;
            i = i + 1;
        }
        if !block.is_terminated() {
            block.terminate(
                match exit_id {
                    Some(id) => instruction_branch(id),
                    None => instruction_return(),
                },
            );
        }
        function.add_block(block);
        Ok(())
    }
}

} // verus!

//! Writing statements and functions keeps types before values.

use crate::arena::Handle;
use crate::ir::{Expression, Function as IrFunction, Module, Statement, VariableClass};
use crate::spv::expressions::Cursor;
use crate::spv::function::{block_instructions, BlockView, FunctionView, LoopContext};
use crate::spv::growth_statements::lemma_signature_grows;
use crate::spv::instruction::InstructionView;
use crate::spv::instructions::{
    op_branch, op_function_end, op_function_parameter, op_label, op_variable,
};
use crate::spv::lookup::LookupType;
use crate::spv::model::{Outcome, WriterView};
use crate::spv::statements::{closed_block, drafting, law_blocks_are_left, Draft};
use crate::spv::typing::{
    group_typing, has_type, have_types, is_extended, lemma_both_have_types,
    lemma_still_have_types,
};
use crate::spv::typing_declarations::{
    lemma_function_type_typed, lemma_initializer_typed,
    lemma_pointer_typed as lemma_pointer_id_typed, lemma_return_type_typed, lemma_type_id_typed,
};
use crate::spv::typing_expressions::{lemma_pointer_typed, lemma_value_typed};
use crate::spv::words::Word;
use spirv_headers as spirv;
use vstd::prelude::*;

verus! {

/// Whether the types of what the instructions of blocks yield are among the declarations.
#[verifier::opaque]
pub open spec fn blocks_have_types(
    declarations: Seq<InstructionView>,
    blocks: Seq<BlockView>,
) -> bool {
    forall|i: int| 0 <= i < blocks.len() ==> (#[trigger] blocks[i]).has_types(declarations)
}

/// The declarations of local variables.
pub open spec fn variable_declarations(variables: Seq<(Word, InstructionView)>) -> Seq<
    InstructionView,
> {
    variables.map_values(|variable: (Word, InstructionView)| variable.1)
}

impl FunctionView {
    /// Whether the types of what the instructions of a function yield are among the declarations.
    pub open spec fn has_types(self, declarations: Seq<InstructionView>) -> bool {
        &&& self.signature matches Some(instruction) ==> has_type(declarations, instruction)
        &&& have_types(declarations, self.parameters)
        &&& have_types(declarations, variable_declarations(self.variables))
        &&& blocks_have_types(declarations, self.blocks)
    }
}

broadcast proof fn lemma_blocks_still_have_types(
    a: Seq<InstructionView>,
    b: Seq<InstructionView>,
    blocks: Seq<BlockView>,
)
    requires
        #[trigger] is_extended(a, b),
        #[trigger] blocks_have_types(a, blocks),
    ensures
        blocks_have_types(b, blocks),
{
    broadcast use group_typing;
    reveal(blocks_have_types);
    assert forall|i: int| 0 <= i < blocks.len() implies (#[trigger] blocks[i]).has_types(b) by {
        assert(blocks[i].has_types(a));
        lemma_still_have_types(a, b, blocks[i].body);
    }
}

broadcast proof fn lemma_one_more_block_has_types(
    declarations: Seq<InstructionView>,
    blocks: Seq<BlockView>,
    block: BlockView,
)
    requires
        blocks_have_types(declarations, blocks),
        block.has_types(declarations),
    ensures
        #[trigger] blocks_have_types(declarations, blocks.push(block)),
{
    reveal(blocks_have_types);
}

broadcast group group_block_typing {
    lemma_blocks_still_have_types,
    lemma_one_more_block_has_types,
}

impl Draft {
    /// What was declared.
    pub open spec fn declarations(self) -> Seq<InstructionView> {
        self.writer.logical_layout.declarations
    }

    /// Whether the type of what an instruction yields is declared before it.
    pub open spec fn is_typed(self) -> bool {
        self.writer.is_typed() && self.function.has_types(self.declarations())
    }

    /// Whether a step leads to a state that is typed and holds all declarations.
    pub open spec fn is_typed_by<T>(self, step: Outcome<Draft, T>) -> bool {
        match step {
            Outcome::Done(later, _) => later.is_typed() && self.writer.is_typed_in(later.writer),
            Outcome::Fail(later, _) => self.writer.is_typed_in(later.writer),
            Outcome::Stuck => true,
        }
    }

    /// Whether a step leads to a state that is typed and holds all declarations, and so is the
    /// block that it results in.
    pub open spec fn is_typed_by_block(self, step: Outcome<Draft, BlockView>) -> bool {
        &&& self.is_typed_by(step)
        &&& step matches Outcome::Done(later, block) ==> block.has_types(later.declarations())
    }
}

/// The value of an expression, appended to a block.
proof fn lemma_expression_typed(
    d: Draft,
    module: Module,
    ir_function: IrFunction,
    block: BlockView,
    handle: Handle<Expression>,
)
    requires
        d.is_typed(),
        block.has_types(d.declarations()),
    ensures
        d.is_typed_by(d.expression(module, ir_function, block, handle)),
        d.expression(module, ir_function, block, handle) matches Outcome::Done(e, written)
            ==> written.0.has_types(e.declarations()),
{
    broadcast use group_typing;
    broadcast use group_block_typing;
    let c = Cursor { writer: d.writer, block };
    let s = d.scope(module, ir_function);
    lemma_value_typed(c, s, handle, ir_function.expressions.count());
}

/// A pointer to the value of an expression, appended to a block.
proof fn lemma_expression_pointer_typed(
    d: Draft,
    module: Module,
    ir_function: IrFunction,
    block: BlockView,
    handle: Handle<Expression>,
)
    requires
        d.is_typed(),
        block.has_types(d.declarations()),
    ensures
        d.is_typed_by(d.expression_pointer(module, ir_function, block, handle)),
        d.expression_pointer(module, ir_function, block, handle) matches Outcome::Done(e, written)
            ==> written.0.has_types(e.declarations()),
{
    broadcast use group_typing;
    broadcast use group_block_typing;
    let c = Cursor { writer: d.writer, block };
    let s = d.scope(module, ir_function);
    lemma_pointer_typed(c, s, handle, ir_function.expressions.count());
}

proof fn lemma_fork_typed(
    d: Draft,
    module: Module,
    ir_function: IrFunction,
    block: BlockView,
    condition: Handle<Expression>,
)
    requires
        d.is_typed(),
        block.has_types(d.declarations()),
    ensures
        d.is_typed_by(d.fork(module, ir_function, block, condition)),
{
    broadcast use group_typing;
    broadcast use group_block_typing;
    reveal(Draft::fork);
    lemma_expression_typed(d, module, ir_function, block, condition);
}

proof fn lemma_enter_loop_typed(d: Draft, block: BlockView)
    requires
        d.is_typed(),
        block.has_types(d.declarations()),
    ensures
        d.is_typed_by(d.enter_loop(block)),
{
    broadcast use group_typing;
    broadcast use group_block_typing;
    reveal(Draft::enter_loop);
}

proof fn lemma_store_typed(
    d: Draft,
    module: Module,
    ir_function: IrFunction,
    block: BlockView,
    pointer: Handle<Expression>,
    value: Handle<Expression>,
)
    requires
        d.is_typed(),
        block.has_types(d.declarations()),
    ensures
        d.is_typed_by_block(d.store(module, ir_function, block, pointer, value)),
{
    broadcast use group_typing;
    broadcast use group_block_typing;
    reveal(Draft::store);
    lemma_expression_pointer_typed(d, module, ir_function, block, pointer);
    if let Outcome::Done(d1, target) = d.expression_pointer(module, ir_function, block, pointer) {
        lemma_expression_typed(d1, module, ir_function, target.0, value);
    }
}

proof fn lemma_block_typed(
    d: Draft,
    module: Module,
    ir_function: IrFunction,
    label_id: Word,
    list: Seq<Statement>,
    exit_id: Option<Word>,
    context: LoopContext,
)
    requires
        d.is_typed(),
    ensures
        d.is_typed_by(d.block(module, ir_function, label_id, list, exit_id, context)),
    decreases list, 1nat,
{
    broadcast use group_typing;
    broadcast use group_block_typing;
    let start = BlockView::start(label_id);
    lemma_statements_typed(d, module, ir_function, start, list, context);
    if let Outcome::Done(e, block) = d.statements(module, ir_function, start, list, context) {
        assert(closed_block(block, exit_id).has_types(e.declarations()));
    }
}

proof fn lemma_statements_typed(
    d: Draft,
    module: Module,
    ir_function: IrFunction,
    block: BlockView,
    list: Seq<Statement>,
    context: LoopContext,
)
    requires
        d.is_typed(),
        block.has_types(d.declarations()),
    ensures
        d.is_typed_by_block(d.statements(module, ir_function, block, list, context)),
    decreases list, 0nat,
{
    broadcast use group_typing;
    if list.len() > 0 && block.termination is None {
        lemma_statement_typed(d, module, ir_function, block, list[0], context);
        if let Outcome::Done(e, next) = d.statement(module, ir_function, block, list[0], context) {
            let rest = list.subrange(1, list.len() as int);
            lemma_statements_typed(e, module, ir_function, next, rest, context);
        }
    }
}

proof fn lemma_statement_typed(
    d: Draft,
    module: Module,
    ir_function: IrFunction,
    block: BlockView,
    statement: Statement,
    context: LoopContext,
)
    requires
        d.is_typed(),
        block.has_types(d.declarations()),
    ensures
        d.is_typed_by_block(d.statement(module, ir_function, block, statement, context)),
    decreases statement, 2nat,
{
    broadcast use group_typing;
    broadcast use group_block_typing;
    match statement {
        Statement::Block(list) => {
            if let Outcome::Done(d1, scope_id) = d.generate_id() {
                let d2 = d1.add(block.terminate(op_branch(scope_id)));
                if let Outcome::Done(d3, merge_id) = d2.generate_id() {
                    lemma_block_typed(
                        d3,
                        module,
                        ir_function,
                        scope_id,
                        list@,
                        Some(merge_id),
                        context,
                    );
                }
            }
        },
        Statement::If { condition, accept, reject } => {
            lemma_fork_typed(d, module, ir_function, block, condition);
            if let Outcome::Done(d1, ids) = d.fork(module, ir_function, block, condition) {
                let exit_id = Some(ids.2);
                lemma_block_typed(d1, module, ir_function, ids.0, accept@, exit_id, context);
                if let Outcome::Done(d2, _) = d1.block(
                    module,
                    ir_function,
                    ids.0,
                    accept@,
                    exit_id,
                    context,
                ) {
                    lemma_block_typed(d2, module, ir_function, ids.1, reject@, exit_id, context);
                }
            }
        },
        Statement::Loop { body, continuing } => {
            lemma_enter_loop_typed(d, block);
            if let Outcome::Done(d1, ids) = d.enter_loop(block) {
                let inside = LoopContext { continuing_id: Some(ids.3), break_id: Some(ids.1) };
                let after = LoopContext { continuing_id: None, break_id: Some(ids.1) };
                let one = d1.block(module, ir_function, ids.2, body@, Some(ids.3), inside);
                lemma_block_typed(d1, module, ir_function, ids.2, body@, Some(ids.3), inside);
                if let Outcome::Done(d2, _) = one {
                    lemma_block_typed(
                        d2,
                        module,
                        ir_function,
                        ids.3,
                        continuing@,
                        Some(ids.0),
                        after,
                    );
                }
            }
        },
        Statement::Return { value: Some(value) } => {
            lemma_expression_typed(d, module, ir_function, block, value);
        },
        Statement::Store { pointer, value } => {
            lemma_store_typed(d, module, ir_function, block, pointer, value);
        },
        _ => {},
    }
}

proof fn lemma_variable_typed(d: Draft, id: Word, instruction: InstructionView)
    requires
        d.is_typed(),
        has_type(d.declarations(), instruction),
    ensures
        d.with_variable(id, instruction).is_typed(),
{
    broadcast use group_typing;
    let before = d.function.variables;
    assert(variable_declarations(before.push((id, instruction))) =~= variable_declarations(
        before,
    ).push(instruction));
}

proof fn lemma_local_variables_typed(d: Draft, module: Module, ir_function: IrFunction, i: nat)
    requires
        d.is_typed(),
    ensures
        d.is_typed_by(d.local_variables(module, ir_function, i)),
    decreases ir_function.local_variables.count() - i,
{
    broadcast use group_typing;
    broadcast use group_block_typing;
    if i < ir_function.local_variables.count() {
        let variable = ir_function.local_variables.data@[i as int];
        if let Outcome::Done(d1, id) = d.generate_id() {
            let w1 = d1.writer.name(id, variable.name);
            lemma_initializer_typed(w1, module, variable.init);
            if let Outcome::Done(w2, init) = w1.initializer_id(module, variable.init) {
                lemma_pointer_id_typed(w2, module.types, variable.ty, VariableClass::Function);
                if let Outcome::Done(w3, pointer_type_id) = w2.pointer_id(
                    module.types,
                    variable.ty,
                    VariableClass::Function,
                ) {
                    let instruction = op_variable(
                        pointer_type_id,
                        id,
                        spirv::StorageClass::Function,
                        init,
                    );
                    let d3 = Draft { writer: w3, function: d.function };
                    lemma_variable_typed(d3, id, instruction);
                    lemma_local_variables_typed(
                        d3.with_variable(id, instruction),
                        module,
                        ir_function,
                        i + 1,
                    );
                }
            }
        }
    }
}

proof fn lemma_arguments_typed(
    d: Draft,
    module: Module,
    ir_function: IrFunction,
    i: nat,
    type_ids: Seq<Word>,
)
    requires
        d.is_typed(),
    ensures
        d.is_typed_by(d.arguments(module, ir_function, i, type_ids)),
    decreases ir_function.arguments@.len() - i,
{
    broadcast use group_typing;
    broadcast use group_block_typing;
    if i < ir_function.arguments@.len() {
        let ty = LookupType::Handle(ir_function.arguments@[i as int].ty);
        if let Outcome::Done(d1, id) = d.generate_id() {
            lemma_type_id_typed(d1.writer, module.types, ty);
            if let Outcome::Done(w2, type_id) = d1.writer.type_id(module.types, ty) {
                let d2 = Draft { writer: w2, function: d.function };
                let d3 = d2.with_parameter(op_function_parameter(type_id, id));
                lemma_arguments_typed(d3, module, ir_function, i + 1, type_ids.push(type_id));
            }
        }
    }
}

proof fn lemma_signature_typed(d: Draft, module: Module, ir_function: IrFunction)
    requires
        d.is_typed(),
    ensures
        d.is_typed_by(d.signature(module, ir_function)),
{
    broadcast use group_typing;
    broadcast use group_block_typing;
    lemma_local_variables_typed(d, module, ir_function, 0);
    if let Outcome::Done(d1, _) = d.local_variables(module, ir_function, 0) {
        let step = d1.writer.return_type_id(module.types, ir_function.return_type);
        lemma_return_type_typed(d1.writer, module.types, ir_function.return_type);
        if let Outcome::Done(d2, return_type_id) = drafting(step, d1.function) {
            lemma_arguments_typed(d2, module, ir_function, 0, Seq::empty());
            if let Outcome::Done(d3, ids) = d2.arguments(module, ir_function, 0, Seq::empty()) {
                if let Outcome::Done(d4, id) = d3.generate_id() {
                    lemma_function_type_typed(d4.writer, ids, return_type_id);
                }
            }
        }
    }
}

proof fn lemma_block_instructions_typed(
    declarations: Seq<InstructionView>,
    blocks: Seq<BlockView>,
    variables: Seq<InstructionView>,
)
    requires
        blocks_have_types(declarations, blocks),
        have_types(declarations, variables),
        forall|i: int| 0 <= i < blocks.len() ==> (#[trigger] blocks[i]).termination is Some,
    ensures
        have_types(declarations, block_instructions(blocks, variables)),
    decreases blocks.len(),
{
    broadcast use group_typing;
    if blocks.len() > 0 {
        reveal(blocks_have_types);
        let first = blocks.drop_last();
        let block = blocks.last();
        let own = if blocks.len() == 1 {
            variables
        } else {
            Seq::empty()
        };
        lemma_block_instructions_typed(declarations, first, variables);
        let label = seq![op_label(block.label_id)];
        let end = seq![block.termination->0];
        assert(label =~= Seq::empty().push(op_label(block.label_id)));
        assert(end =~= Seq::empty().push(block.termination->0));
        assert(block.has_types(declarations));
        lemma_both_have_types(declarations, label, own);
        lemma_both_have_types(declarations, label + own, block.body);
        lemma_both_have_types(declarations, label + own + block.body, end);
        lemma_both_have_types(
            declarations,
            block_instructions(first, variables),
            block.instructions(own),
        );
    }
}

proof fn lemma_function_instructions_typed(
    declarations: Seq<InstructionView>,
    function: FunctionView,
)
    requires
        function.signature is Some,
        function.is_terminated(),
        function.has_types(declarations),
    ensures
        have_types(declarations, function.instructions().push(op_function_end())),
{
    broadcast use group_typing;
    let variables = variable_declarations(function.variables);
    let start = seq![function.signature->0];
    assert(start =~= Seq::empty().push(function.signature->0));
    lemma_block_instructions_typed(declarations, function.blocks, variables);
    lemma_both_have_types(declarations, start, function.parameters);
    lemma_both_have_types(
        declarations,
        start + function.parameters,
        block_instructions(function.blocks, variables),
    );
}

/// Writing a function keeps types before values.
pub proof fn lemma_function_typed(w: WriterView, module: Module, ir_function: IrFunction)
    requires
        w.is_typed(),
    ensures
        w.is_typed_by(w.function(module, ir_function)),
{
    broadcast use group_typing;
    broadcast use group_block_typing;
    reveal(WriterView::function);
    let d = Draft { writer: w, function: FunctionView::empty() };
    assert(variable_declarations(d.function.variables) =~= Seq::empty());
    assert(blocks_have_types(d.declarations(), Seq::empty())) by {
        reveal(blocks_have_types);
    }
    lemma_signature_typed(d, module, ir_function);
    lemma_signature_grows(d, module, ir_function);
    if let Outcome::Done(d1, id) = d.signature(module, ir_function) {
        if let Outcome::Done(d2, main_id) = d1.generate_id() {
            let outside = LoopContext::outside();
            let body = ir_function.body@;
            lemma_block_typed(d2, module, ir_function, main_id, body, None, outside);
            law_blocks_are_left(d2, module, ir_function, main_id, body, None, outside);
            if let Outcome::Done(e, _) = d2.block(
                module,
                ir_function,
                main_id,
                body,
                None,
                outside,
            ) {
                reveal(FunctionView::gains_blocks);
                lemma_function_instructions_typed(e.declarations(), e.function);
                lemma_both_have_types(
                    e.declarations(),
                    e.writer.logical_layout.function_definitions,
                    e.function.instructions().push(op_function_end()),
                );
            }
        }
    }
}

} // verus!

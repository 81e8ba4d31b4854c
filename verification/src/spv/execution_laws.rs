//! What the statements of a function do, the blocks that are written for them do.

use crate::arena::Handle;
use crate::ir::{Expression, Function as IrFunction, Module, Statement};
use crate::spv::expressions::Cursor;
use crate::spv::flow_laws::{
    goes_to, is_fork, is_pointer, law_jumps_leave_the_block, law_values_are_stored,
    lemma_block_fresh, lemma_enter, lemma_fork, lemma_statements_fresh,
};
use crate::spv::function::{BlockView, FunctionView, LoopContext};
use crate::spv::growth_expressions::{lemma_raw_grows, lemma_value_grows};
use crate::spv::growth_statements::lemma_signature_grows;
use crate::spv::instruction::InstructionView;
use crate::spv::instructions::op_branch;
use crate::spv::label_laws::law_labels_of_function_are_distinct;
use crate::spv::model::{Outcome, WriterView};
use crate::spv::operation_laws::is_valued;
use crate::spv::statements::{closed_block, draft, Draft};
use crate::spv::words::Word;
use spirv_headers as spirv;
use vstd::prelude::*;

verus! {

/// Something that happens when statements are executed.
pub enum Event {
    /// A value is stored where a pointer leads.
    Store(Handle<Expression>, Handle<Expression>),
    /// A condition decides between two lists of statements.
    Decision(Handle<Expression>),
    /// A loop starts, for the first time or over.
    Round,
    /// The function returns, with a value if there is one.
    Return(Option<Handle<Expression>>),
}

/// Where control goes from statements.
pub enum Flow {
    Next,
    Break,
    Continue,
    Return,
}

/// What happens when statements are executed: where control goes, the events in their order, and
/// how many decisions were made, with those before.
pub struct Run {
    pub flow: Flow,
    pub events: Seq<Event>,
    pub taken: nat,
}

/// A run after other events.
pub open spec fn after_events(events: Seq<Event>, run: Option<Run>) -> Option<Run> {
    match run {
        Some(run) => Some(Run { events: events + run.events, ..run }),
        None => None,
    }
}

/// Executes a list of statements. The `i`-th decision is `decide(i)`; `taken` were made before.
/// Loops start less than `fuel` times inside one another and one after the other; where they do
/// not end within that, there is no result.
pub open spec fn run_list(
    list: Seq<Statement>,
    decide: spec_fn(nat) -> bool,
    taken: nat,
    fuel: nat,
) -> Option<Run>
    decreases fuel, list, 0nat,
{
    if list.len() == 0 {
        Some(Run { flow: Flow::Next, events: Seq::empty(), taken })
    } else {
        match run_statement(list[0], decide, taken, fuel) {
            Some(run) => if run.flow is Next {
                after_events(
                    run.events,
                    run_list(list.subrange(1, list.len() as int), decide, run.taken, fuel),
                )
            } else {
                Some(run)
            },
            None => None,
        }
    }
}

/// Executes a statement.
pub open spec fn run_statement(
    statement: Statement,
    decide: spec_fn(nat) -> bool,
    taken: nat,
    fuel: nat,
) -> Option<Run>
    decreases fuel, statement, 2nat,
{
    match statement {
        Statement::Block(list) => run_list(list@, decide, taken, fuel),
        Statement::If { condition, accept, reject } => after_events(
            seq![Event::Decision(condition)],
            if decide(taken) {
                run_list(accept@, decide, taken + 1, fuel)
            } else {
                run_list(reject@, decide, taken + 1, fuel)
            },
        ),
        Statement::Loop { body, continuing } => run_loop(statement, decide, taken, fuel),
        Statement::Break => Some(Run { flow: Flow::Break, events: Seq::empty(), taken }),
        Statement::Continue => Some(Run { flow: Flow::Continue, events: Seq::empty(), taken }),
        Statement::Return { value } => Some(
            Run { flow: Flow::Return, events: seq![Event::Return(value)], taken },
        ),
        Statement::Store { pointer, value } => Some(
            Run { flow: Flow::Next, events: seq![Event::Store(pointer, value)], taken },
        ),
        _ => None,
    }
}

/// Executes a loop: its body, and, unless that leaves the loop, its continuing part and the loop
/// again.
pub open spec fn run_loop(
    statement: Statement,
    decide: spec_fn(nat) -> bool,
    taken: nat,
    fuel: nat,
) -> Option<Run>
    decreases fuel, statement, 1nat,
{
    if fuel == 0 {
        None
    } else {
        match statement {
            Statement::Loop { body, continuing } => {
                let less = (fuel - 1) as nat;
                match run_list(body@, decide, taken, less) {
                    None => None,
                    Some(first) => {
                        let before = seq![Event::Round] + first.events;
                        match first.flow {
                            Flow::Break => Some(
                                Run { flow: Flow::Next, events: before, taken: first.taken },
                            ),
                            Flow::Return => Some(
                                Run { flow: Flow::Return, events: before, taken: first.taken },
                            ),
                            _ => match run_list(continuing@, decide, first.taken, less) {
                                None => None,
                                Some(second) => {
                                    let both = before + second.events;
                                    match second.flow {
                                        Flow::Next => after_events(
                                            both,
                                            run_loop(statement, decide, second.taken, less),
                                        ),
                                        Flow::Break => Some(
                                            Run {
                                                flow: Flow::Next,
                                                events: both,
                                                taken: second.taken,
                                            },
                                        ),
                                        Flow::Return => Some(
                                            Run {
                                                flow: Flow::Return,
                                                events: both,
                                                taken: second.taken,
                                            },
                                        ),
                                        Flow::Continue => None,
                                    }
                                },
                            },
                        }
                    },
                }
            },
            _ => None,
        }
    }
}

/// Executes the body of a function. Control that reaches its end returns.
pub open spec fn run_function(ir_function: IrFunction, decide: spec_fn(nat) -> bool, fuel: nat) -> Option<
    Seq<Event>,
> {
    match run_list(ir_function.body@, decide, 0, fuel) {
        Some(run) => match run.flow {
            Flow::Next => Some(run.events.push(Event::Return(None))),
            Flow::Return => Some(run.events),
            _ => None,
        },
        None => None,
    }
}

/// A machine that executes blocks: which block it is in and how far, how many decisions it has
/// made, what it has executed, and whether it has returned.
#[verifier::ext_equal]
pub struct Machine {
    pub label_id: Word,
    pub at: nat,
    pub taken: nat,
    pub trace: Seq<InstructionView>,
    pub returned: bool,
}

/// The block with a label.
pub open spec fn block_with(blocks: Seq<BlockView>, id: Word) -> BlockView {
    let i = choose|i: int| 0 <= i < blocks.len() && (#[trigger] blocks[i]).label_id == id;
    blocks[i]
}

impl Machine {
    /// At the start of a block.
    pub open spec fn goes(self, id: Word) -> Machine {
        Machine { label_id: id, at: 0, ..self }
    }

    /// Executes one instruction: the next of the block, or the one that leaves it.
    pub open spec fn step(self, blocks: Seq<BlockView>, decide: spec_fn(nat) -> bool) -> Machine {
        let block = block_with(blocks, self.label_id);
        let last = block.termination->0;
        if self.returned {
            self
        } else if self.at < block.body.len() {
            Machine { at: self.at + 1, trace: self.trace.push(block.body[self.at as int]), ..self }
        } else if last.op == spirv::Op::Branch {
            self.goes(last.operands[0])
        } else if last.op == spirv::Op::BranchConditional {
            let decided = Machine { taken: self.taken + 1, trace: self.trace.push(last), ..self };
            if decide(self.taken) {
                decided.goes(last.operands[1])
            } else {
                decided.goes(last.operands[2])
            }
        } else {
            Machine { returned: true, trace: self.trace.push(last), ..self }
        }
    }

    /// Executes `n` instructions.
    pub open spec fn steps(
        self,
        blocks: Seq<BlockView>,
        decide: spec_fn(nat) -> bool,
        n: nat,
    ) -> Machine
        decreases n,
    {
        if n == 0 {
            self
        } else {
            self.step(blocks, decide).steps(blocks, decide, (n - 1) as nat)
        }
    }
}

/// Instructions one segment after the other.
pub open spec fn flatten(segments: Seq<Seq<InstructionView>>) -> Seq<InstructionView>
    decreases segments.len(),
{
    if segments.len() == 0 {
        Seq::empty()
    } else {
        flatten(segments.drop_last()) + segments.last()
    }
}

/// Whether a segment computes the value of an expression, but for its last `tail` instructions.
pub open spec fn computes(
    d: Draft,
    module: Module,
    ir_function: IrFunction,
    handle: Handle<Expression>,
    before: BlockView,
    id: Word,
    after: BlockView,
    segment: Seq<InstructionView>,
    tail: int,
) -> bool {
    &&& is_valued(
        d.scope(module, ir_function),
        handle,
        ir_function.expressions.count(),
        before,
        id,
        after,
    )
    &&& segment.len() >= tail
    &&& before.body + segment.subrange(0, segment.len() - tail) == after.body
}

/// Whether a segment stores the value of an expression where another leads.
pub open spec fn stores(
    d: Draft,
    module: Module,
    ir_function: IrFunction,
    pointer: Handle<Expression>,
    value: Handle<Expression>,
    before: BlockView,
    middle: BlockView,
    after: BlockView,
    segment: Seq<InstructionView>,
) -> bool {
    let s = d.scope(module, ir_function);
    let depth = ir_function.expressions.count();
    let last = segment.last();
    &&& segment.len() > 0
    &&& last.op == spirv::Op::Store
    &&& last.operands.len() == 2
    &&& is_pointer(s, pointer, depth, before, last.operands[0], middle)
    &&& is_valued(s, value, depth, middle, last.operands[1], after)
    &&& before.body + segment == after.body.push(last)
}

/// Whether executed instructions are those of an event.
pub open spec fn is_executed(
    module: Module,
    ir_function: IrFunction,
    event: Event,
    segment: Seq<InstructionView>,
) -> bool {
    let last = segment.last();
    match event {
        Event::Store(pointer, value) => exists|
            d: Draft,
            before: BlockView,
            middle: BlockView,
            after: BlockView,
        | #[trigger]
            stores(d, module, ir_function, pointer, value, before, middle, after, segment),
        Event::Decision(condition) => {
            &&& segment.len() > 1
            &&& last.op == spirv::Op::BranchConditional
            &&& last.operands.len() == 3
            &&& segment[segment.len() - 2].op == spirv::Op::SelectionMerge
            &&& exists|d: Draft, before: BlockView, after: BlockView| #[trigger]
                computes(
                    d,
                    module,
                    ir_function,
                    condition,
                    before,
                    last.operands[0],
                    after,
                    segment,
                    2,
                )
        },
        Event::Round => segment.len() == 1 && last.op == spirv::Op::LoopMerge,
        Event::Return(None) => segment.len() == 1 && last.op == spirv::Op::Return,
        Event::Return(Some(value)) => {
            &&& segment.len() > 0
            &&& last.op == spirv::Op::ReturnValue
            &&& last.operands.len() == 1
            &&& exists|d: Draft, before: BlockView, after: BlockView| #[trigger]
                computes(
                    d,
                    module,
                    ir_function,
                    value,
                    before,
                    last.operands[0],
                    after,
                    segment,
                    1,
                )
        },
    }
}

/// Whether executed instructions are those of events, in their order.
pub open spec fn are_executed(
    module: Module,
    ir_function: IrFunction,
    events: Seq<Event>,
    segments: Seq<Seq<InstructionView>>,
) -> bool {
    &&& segments.len() == events.len()
    &&& forall|i: int|
        #![trigger segments[i]]
        0 <= i < events.len() ==> is_executed(module, ir_function, events[i], segments[i])
}

/// How a machine gets from one state to another.
pub struct Path {
    pub steps: nat,
    pub segments: Seq<Seq<InstructionView>>,
}

/// Whether a machine gets from `a` to `b`, with `events` on the way.
pub open spec fn gets(
    module: Module,
    ir_function: IrFunction,
    blocks: Seq<BlockView>,
    decide: spec_fn(nat) -> bool,
    a: Machine,
    events: Seq<Event>,
    b: Machine,
    path: Path,
) -> bool {
    &&& a.steps(blocks, decide, path.steps) == b
    &&& are_executed(module, ir_function, events, path.segments)
    &&& b.trace == a.trace + flatten(path.segments)
}

proof fn lemma_flatten(a: Seq<Seq<InstructionView>>, b: Seq<Seq<InstructionView>>)
    ensures
        flatten(a + b) == flatten(a) + flatten(b),
    decreases b.len(),
{
    if b.len() == 0 {
        assert(a + b =~= a);
        assert(flatten(a) + flatten(b) =~= flatten(a));
    } else {
        lemma_flatten(a, b.drop_last());
        assert((a + b).drop_last() =~= a + b.drop_last());
        assert((a + b).last() == b.last());
        assert(flatten(a + b) =~= flatten(a) + flatten(b));
    }
}

proof fn lemma_steps(
    a: Machine,
    blocks: Seq<BlockView>,
    decide: spec_fn(nat) -> bool,
    n: nat,
    m: nat,
)
    ensures
        a.steps(blocks, decide, n + m) == a.steps(blocks, decide, n).steps(blocks, decide, m),
    decreases n,
{
    if n > 0 {
        lemma_steps(a.step(blocks, decide), blocks, decide, (n - 1) as nat, m);
        assert((n + m - 1) as nat == (n - 1) as nat + m);
    }
}

/// One way after another.
proof fn lemma_gets_on(
    module: Module,
    ir_function: IrFunction,
    blocks: Seq<BlockView>,
    decide: spec_fn(nat) -> bool,
    a: Machine,
    first: Seq<Event>,
    b: Machine,
    one: Path,
    second: Seq<Event>,
    c: Machine,
    two: Path,
) -> (path: Path)
    requires
        gets(module, ir_function, blocks, decide, a, first, b, one),
        gets(module, ir_function, blocks, decide, b, second, c, two),
    ensures
        gets(module, ir_function, blocks, decide, a, first + second, c, path),
{
    lemma_steps(a, blocks, decide, one.steps, two.steps);
    lemma_flatten(one.segments, two.segments);
    let segments = one.segments + two.segments;
    let events = first + second;
    assert forall|i: int| #![trigger segments[i]] 0 <= i < events.len() implies is_executed(
        module,
        ir_function,
        events[i],
        segments[i],
    ) by {
        if i < first.len() {
            assert(segments[i] == one.segments[i]);
        } else {
            assert(segments[i] == two.segments[i - first.len()]);
        }
    }
    assert(c.trace =~= a.trace + flatten(segments));
    Path { steps: one.steps + two.steps, segments }
}

/// Whether no two blocks have the same label.
pub open spec fn are_labeled(blocks: Seq<BlockView>) -> bool {
    forall|i: int, j: int|
        0 <= i < blocks.len() && 0 <= j < blocks.len() && i != j ==> (
        #[trigger] blocks[i]).label_id != (#[trigger] blocks[j]).label_id
}

proof fn lemma_block_with(blocks: Seq<BlockView>, i: int)
    requires
        are_labeled(blocks),
        0 <= i < blocks.len(),
    ensures
        block_with(blocks, blocks[i].label_id) == blocks[i],
{
    let id = blocks[i].label_id;
    let k = choose|k: int| 0 <= k < blocks.len() && (#[trigger] blocks[k]).label_id == id;
    assert(blocks[i].label_id == id);
    assert(k == i);
}

/// A machine walks through a block.
proof fn lemma_walk(
    blocks: Seq<BlockView>,
    decide: spec_fn(nat) -> bool,
    m: Machine,
    to: nat,
)
    requires
        !m.returned,
        m.at <= to <= block_with(blocks, m.label_id).body.len(),
    ensures
        m.steps(blocks, decide, (to - m.at) as nat) == (Machine {
            at: to,
            trace: m.trace + block_with(blocks, m.label_id).body.subrange(m.at as int, to as int),
            ..m
        }),
    decreases to - m.at,
{
    let body = block_with(blocks, m.label_id).body;
    if m.at == to {
        assert(m.trace + body.subrange(m.at as int, to as int) =~= m.trace);
    } else {
        let next = m.step(blocks, decide);
        lemma_walk(blocks, decide, next, to);
        assert(m.trace + body.subrange(m.at as int, to as int) =~= next.trace + body.subrange(
            next.at as int,
            to as int,
        ));
        assert((to - m.at - 1) as nat == (to - next.at) as nat);
    }
}

/// A machine walks through the rest of a block and leaves it.
proof fn lemma_leave(
    blocks: Seq<BlockView>,
    decide: spec_fn(nat) -> bool,
    m: Machine,
)
    requires
        !m.returned,
        m.at <= block_with(blocks, m.label_id).body.len(),
    ensures
        ({
            let block = block_with(blocks, m.label_id);
            let n = block.body.len();
            let end = Machine {
                at: n,
                trace: m.trace + block.body.subrange(m.at as int, n as int),
                ..m
            };
            m.steps(blocks, decide, (n - m.at + 1) as nat) == end.step(blocks, decide)
        }),
{
    let n = block_with(blocks, m.label_id).body.len();
    lemma_walk(blocks, decide, m, n);
    lemma_steps(m, blocks, decide, (n - m.at) as nat, 1);
    let end = m.steps(blocks, decide, (n - m.at) as nat);
    assert(end.steps(blocks, decide, 1) == end.step(blocks, decide)) by {
        reveal_with_fuel(Machine::steps, 2);
    }
}

/// A way with one event.
proof fn lemma_one(
    module: Module,
    ir_function: IrFunction,
    blocks: Seq<BlockView>,
    decide: spec_fn(nat) -> bool,
    a: Machine,
    event: Event,
    b: Machine,
    steps: nat,
    segment: Seq<InstructionView>,
) -> (path: Path)
    requires
        a.steps(blocks, decide, steps) == b,
        is_executed(module, ir_function, event, segment),
        b.trace == a.trace + segment,
    ensures
        gets(module, ir_function, blocks, decide, a, seq![event], b, path),
{
    let segments = seq![segment];
    assert(segments.drop_last() =~= Seq::empty());
    reveal_with_fuel(flatten, 2);
    assert(segments.last() == segment);
    assert(flatten(segments) =~= segment);
    Path { steps, segments }
}

/// A way without events.
proof fn lemma_none(
    module: Module,
    ir_function: IrFunction,
    blocks: Seq<BlockView>,
    decide: spec_fn(nat) -> bool,
    a: Machine,
    b: Machine,
    steps: nat,
) -> (path: Path)
    requires
        a.steps(blocks, decide, steps) == b,
        b.trace == a.trace,
    ensures
        gets(module, ir_function, blocks, decide, a, Seq::empty(), b, path),
{
    let segments = Seq::<Seq<InstructionView>>::empty();
    assert(flatten(segments) =~= Seq::empty());
    assert(a.trace + flatten(segments) =~= a.trace);
    Path { steps, segments }
}

/// Whether a block, as far as it was written, is one of the blocks.
spec fn is_in(blocks: Seq<BlockView>, block: BlockView) -> bool {
    let whole = block_with(blocks, block.label_id);
    &&& block.body.is_prefix_of(whole.body)
    &&& block.termination is Some ==> whole == block
}

proof fn lemma_in(blocks: Seq<BlockView>, i: int, block: BlockView)
    requires
        are_labeled(blocks),
        0 <= i < blocks.len(),
        blocks[i].label_id == block.label_id,
        block.body.is_prefix_of(blocks[i].body),
        block.termination is Some ==> blocks[i] == block,
    ensures
        is_in(blocks, block),
        block_with(blocks, block.label_id) == blocks[i],
{
    lemma_block_with(blocks, i);
}

proof fn lemma_prefix<T>(a: Seq<T>, b: Seq<T>, c: Seq<T>)
    requires
        a.is_prefix_of(b),
        b.is_prefix_of(c),
    ensures
        a.is_prefix_of(c),
{
    assert(c.subrange(0, a.len() as int) =~= b.subrange(0, a.len() as int)) by {
        assert(b =~= c.subrange(0, b.len() as int));
    }
}

/// An item of the start of a list is one of the list.
proof fn lemma_prefix_item<T>(a: Seq<T>, b: Seq<T>, i: int)
    requires
        a.is_prefix_of(b),
        0 <= i < a.len(),
    ensures
        i < b.len(),
        b[i] == a[i],
{
    assert(a[i] == b.subrange(0, a.len() as int)[i]);
}

proof fn lemma_expression_extends(
    d: Draft,
    module: Module,
    ir_function: IrFunction,
    block: BlockView,
    handle: Handle<Expression>,
)
    ensures
        d.expression(module, ir_function, block, handle) matches Outcome::Done(e, written) ==> {
            &&& e.function == d.function
            &&& block.body.is_prefix_of(written.0.body)
            &&& written.0.label_id == block.label_id
            &&& written.0.termination == block.termination
        },
        d.expression_pointer(module, ir_function, block, handle) matches Outcome::Done(e, written)
            ==> {
            &&& e.function == d.function
            &&& block.body.is_prefix_of(written.0.body)
            &&& written.0.label_id == block.label_id
            &&& written.0.termination == block.termination
        },
{
    let s = d.scope(module, ir_function);
    let depth = ir_function.expressions.count();
    let c = Cursor { writer: d.writer, block };
    lemma_value_grows(c, s, handle, depth);
    lemma_raw_grows(c, s, handle, depth);
    reveal(Cursor::is_kept_by);
}

proof fn lemma_store_extends(
    d: Draft,
    module: Module,
    ir_function: IrFunction,
    block: BlockView,
    pointer: Handle<Expression>,
    value: Handle<Expression>,
)
    ensures
        d.store(module, ir_function, block, pointer, value) matches Outcome::Done(e, next) ==> {
            &&& e.function == d.function
            &&& block.body.is_prefix_of(next.body)
            &&& block.body.len() < next.body.len()
            &&& next.label_id == block.label_id
            &&& next.termination == block.termination
        },
{
    reveal(Draft::store);
    lemma_expression_extends(d, module, ir_function, block, pointer);
    if let Outcome::Done(d1, target) = d.expression_pointer(module, ir_function, block, pointer) {
        lemma_expression_extends(d1, module, ir_function, target.0, value);
        if let Outcome::Done(_, written) = d1.expression(module, ir_function, target.0, value) {
            lemma_prefix(block.body, target.0.body, written.0.body);
            if let Outcome::Done(_, next) = d.store(module, ir_function, block, pointer, value) {
                let n = written.0.body.len() as int;
                assert(next.body.subrange(0, n) =~= written.0.body);
                lemma_prefix(block.body, written.0.body, next.body);
            }
        }
    }
}

proof fn lemma_fork_extends(
    d: Draft,
    module: Module,
    ir_function: IrFunction,
    block: BlockView,
    condition: Handle<Expression>,
)
    ensures
        d.fork(module, ir_function, block, condition) matches Outcome::Done(e, _) ==> {
            &&& block.body.is_prefix_of(e.function.blocks.last().body)
            &&& block.body.len() < e.function.blocks.last().body.len()
        },
{
    reveal(Draft::fork);
    lemma_expression_extends(d, module, ir_function, block, condition);
    if let Outcome::Done(e, _) = d.fork(module, ir_function, block, condition) {
        if let Outcome::Done(_, written) = d.expression(module, ir_function, block, condition) {
            let fork = e.function.blocks.last();
            let n = written.0.body.len() as int;
            assert(fork.body.subrange(0, n) =~= written.0.body);
            lemma_prefix(block.body, written.0.body, fork.body);
        }
    }
}

/// The block that a statement is appended to is one of the blocks, as the statement goes on with
/// it or adds it.
proof fn lemma_statement_completes(
    d: Draft,
    module: Module,
    ir_function: IrFunction,
    block: BlockView,
    statement: Statement,
    context: LoopContext,
    blocks: Seq<BlockView>,
)
    requires
        block.termination is None,
        are_labeled(blocks),
        d.statement(module, ir_function, block, statement, context) matches Outcome::Done(e, next)
            ==> e.function.blocks.is_prefix_of(blocks) && is_in(blocks, next),
    ensures
        d.statement(module, ir_function, block, statement, context) is Done ==> is_in(
            blocks,
            block,
        ),
{
    let n = d.function.blocks.len() as int;
    assert(block.body.is_prefix_of(block.body)) by {
        assert(block.body.subrange(0, block.body.len() as int) =~= block.body);
    }
    if let Outcome::Done(e, next) = d.statement(module, ir_function, block, statement, context) {
        let whole = block_with(blocks, block.label_id);
        match statement {
            Statement::Block(list) => {
                if let Outcome::Done(d1, scope_id) = d.generate_id() {
                    let left = block.terminate(op_branch(scope_id));
                    if let Outcome::Done(d2, merge_id) = d1.add(left).generate_id() {
                        lemma_block_fresh(
                            d2,
                            module,
                            ir_function,
                            scope_id,
                            list@,
                            Some(merge_id),
                            context,
                        );
                        lemma_prefix(d2.function.blocks, e.function.blocks, blocks);
                        lemma_prefix_item(d2.function.blocks, blocks, n);
                        lemma_in(blocks, n, block);
                    }
                }
            },
            Statement::If { condition, accept, reject } => {
                lemma_fork(d, module, ir_function, block, condition);
                lemma_fork_extends(d, module, ir_function, block, condition);
                if let Outcome::Done(d1, ids) = d.fork(module, ir_function, block, condition) {
                    let exit_id = Some(ids.2);
                    lemma_block_fresh(d1, module, ir_function, ids.0, accept@, exit_id, context);
                    if let Outcome::Done(d2, _) = d1.block(
                        module,
                        ir_function,
                        ids.0,
                        accept@,
                        exit_id,
                        context,
                    ) {
                        lemma_block_fresh(
                            d2,
                            module,
                            ir_function,
                            ids.1,
                            reject@,
                            exit_id,
                            context,
                        );
                        lemma_prefix(
                            d1.function.blocks,
                            d2.function.blocks,
                            e.function.blocks,
                        );
                        lemma_prefix(d1.function.blocks, e.function.blocks, blocks);
                        lemma_prefix_item(d1.function.blocks, blocks, n);
                        lemma_in(blocks, n, block);
                    }
                }
            },
            Statement::Loop { body, continuing } => {
                lemma_enter(d, block);
                if let Outcome::Done(d1, ids) = d.enter_loop(block) {
                    let inside = LoopContext { continuing_id: Some(ids.3), break_id: Some(ids.1) };
                    let after = LoopContext { continuing_id: None, break_id: Some(ids.1) };
                    lemma_block_fresh(
                        d1,
                        module,
                        ir_function,
                        ids.2,
                        body@,
                        Some(ids.3),
                        inside,
                    );
                    if let Outcome::Done(d2, _) = d1.block(
                        module,
                        ir_function,
                        ids.2,
                        body@,
                        Some(ids.3),
                        inside,
                    ) {
                        lemma_block_fresh(
                            d2,
                            module,
                            ir_function,
                            ids.3,
                            continuing@,
                            Some(ids.0),
                            after,
                        );
                        lemma_prefix(
                            d1.function.blocks,
                            d2.function.blocks,
                            e.function.blocks,
                        );
                        lemma_prefix(d1.function.blocks, e.function.blocks, blocks);
                        lemma_prefix_item(d1.function.blocks, blocks, n);
                        lemma_in(blocks, n, block);
                    }
                }
            },
            Statement::Return { value: Some(value) } => {
                lemma_expression_extends(d, module, ir_function, block, value);
                lemma_prefix(block.body, next.body, whole.body);
            },
            Statement::Store { pointer, value } => {
                lemma_store_extends(d, module, ir_function, block, pointer, value);
                lemma_prefix(block.body, next.body, whole.body);
            },
            _ => {},
        }
    }
}

proof fn lemma_statements_complete(
    d: Draft,
    module: Module,
    ir_function: IrFunction,
    block: BlockView,
    list: Seq<Statement>,
    context: LoopContext,
    blocks: Seq<BlockView>,
)
    requires
        block.termination is None || list.len() == 0,
        are_labeled(blocks),
        d.statements(module, ir_function, block, list, context) matches Outcome::Done(e, next)
            ==> e.function.blocks.is_prefix_of(blocks) && is_in(blocks, next),
    ensures
        d.statements(module, ir_function, block, list, context) is Done ==> is_in(blocks, block),
    decreases list.len(),
{
    if list.len() > 0 {
        if let Outcome::Done(e, next) = d.statement(module, ir_function, block, list[0], context) {
            let rest = list.subrange(1, list.len() as int);
            if let Outcome::Done(f, last) = e.statements(
                module,
                ir_function,
                next,
                rest,
                context,
            ) {
                assert(d.statements(module, ir_function, block, list, context) == Outcome::Done(
                    f,
                    last,
                ));
                if next.termination is None {
                    lemma_statements_fresh(e, module, ir_function, next, rest, context);
                    lemma_prefix(e.function.blocks, f.function.blocks, blocks);
                }
                lemma_statements_complete(e, module, ir_function, next, rest, context, blocks);
                lemma_statement_completes(
                    d,
                    module,
                    ir_function,
                    block,
                    list[0],
                    context,
                    blocks,
                );
            }
        }
    }
}

/// Whether a machine is where control goes: at the end of a block, or at the start of one.
spec fn is_at_start(m: Machine, id: Option<Word>) -> bool {
    !m.returned && id == Some(m.label_id) && m.at == 0
}

spec fn is_inside(m: Machine, block: BlockView) -> bool {
    !m.returned && m.label_id == block.label_id && m.at == block.body.len()
        && block.termination is None
}

spec fn lands(flow: Flow, m: Machine, next: BlockView, context: LoopContext) -> bool {
    match flow {
        Flow::Next => is_inside(m, next),
        Flow::Break => is_at_start(m, context.break_id),
        Flow::Continue => is_at_start(m, context.continuing_id),
        Flow::Return => m.returned,
    }
}

spec fn lands_outside(flow: Flow, m: Machine, exit_id: Word, context: LoopContext) -> bool {
    match flow {
        Flow::Next => is_at_start(m, Some(exit_id)),
        Flow::Break => is_at_start(m, context.break_id),
        Flow::Continue => is_at_start(m, context.continuing_id),
        Flow::Return => m.returned,
    }
}

/// A machine at the end of a block that leads elsewhere goes there.
proof fn lemma_go(
    module: Module,
    ir_function: IrFunction,
    blocks: Seq<BlockView>,
    decide: spec_fn(nat) -> bool,
    m: Machine,
    block: BlockView,
    id: Word,
) -> (path: Path)
    requires
        !m.returned,
        block_with(blocks, m.label_id) == block,
        m.at == block.body.len(),
        block.termination is Some,
        goes_to(block.termination->0, id),
    ensures
        gets(module, ir_function, blocks, decide, m, Seq::empty(), m.goes(id), path),
{
    lemma_leave(blocks, decide, m);
    let n = block.body.len() as int;
    assert(m.trace + block.body.subrange(n, n) =~= m.trace);
    lemma_none(module, ir_function, blocks, decide, m, m.goes(id), 1)
}

proof fn lemma_events(events: Seq<Event>)
    ensures
        Seq::<Event>::empty() + events == events,
        events + Seq::<Event>::empty() == events,
{
    assert(Seq::<Event>::empty() + events =~= events);
    assert(events + Seq::<Event>::empty() =~= events);
}

proof fn lemma_block_runs(
    d: Draft,
    module: Module,
    ir_function: IrFunction,
    label_id: Word,
    list: Seq<Statement>,
    exit_id: Word,
    context: LoopContext,
    blocks: Seq<BlockView>,
    decide: spec_fn(nat) -> bool,
    fuel: nat,
    m: Machine,
) -> (r: (Path, Machine))
    requires
        are_labeled(blocks),
        d.block(module, ir_function, label_id, list, Some(exit_id), context) is Done,
        d.block(
            module,
            ir_function,
            label_id,
            list,
            Some(exit_id),
            context,
        )->Done_0.function.blocks.is_prefix_of(blocks),
        is_at_start(m, Some(label_id)),
        run_list(list, decide, m.taken, fuel) is Some,
    ensures
        ({
            let run = run_list(list, decide, m.taken, fuel)->0;
            &&& gets(module, ir_function, blocks, decide, m, run.events, r.1, r.0)
            &&& r.1.taken == run.taken
            &&& lands_outside(run.flow, r.1, exit_id, context)
        }),
    decreases fuel, list, 1nat,
{
    let start = BlockView::start(label_id);
    let e = d.statements(module, ir_function, start, list, context)->Done_0;
    let next = d.statements(module, ir_function, start, list, context)->Done_1;
    let last = closed_block(next, Some(exit_id));
    let all = e.function.blocks.push(last);
    let n = e.function.blocks.len() as int;
    lemma_prefix_item(all, blocks, n);
    assert(next.body.subrange(0, next.body.len() as int) =~= next.body);
    lemma_in(blocks, n, next);
    assert(e.function.blocks.is_prefix_of(all)) by {
        assert(all.subrange(0, n) =~= e.function.blocks);
    }
    lemma_prefix(e.function.blocks, all, blocks);
    let (path, m2) = lemma_statements_run(
        d,
        module,
        ir_function,
        start,
        list,
        context,
        blocks,
        decide,
        fuel,
        m,
    );
    let run = run_list(list, decide, m.taken, fuel)->0;
    if run.flow is Next {
        let more = lemma_go(module, ir_function, blocks, decide, m2, last, exit_id);
        let whole = lemma_gets_on(
            module,
            ir_function,
            blocks,
            decide,
            m,
            run.events,
            m2,
            path,
            Seq::empty(),
            m2.goes(exit_id),
            more,
        );
        lemma_events(run.events);
        (whole, m2.goes(exit_id))
    } else {
        (path, m2)
    }
}

proof fn lemma_statements_run(
    d: Draft,
    module: Module,
    ir_function: IrFunction,
    block: BlockView,
    list: Seq<Statement>,
    context: LoopContext,
    blocks: Seq<BlockView>,
    decide: spec_fn(nat) -> bool,
    fuel: nat,
    m: Machine,
) -> (r: (Path, Machine))
    requires
        are_labeled(blocks),
        d.statements(module, ir_function, block, list, context) is Done,
        d.statements(
            module,
            ir_function,
            block,
            list,
            context,
        )->Done_0.function.blocks.is_prefix_of(blocks),
        is_in(blocks, d.statements(module, ir_function, block, list, context)->Done_1),
        is_inside(m, block),
        run_list(list, decide, m.taken, fuel) is Some,
    ensures
        ({
            let run = run_list(list, decide, m.taken, fuel)->0;
            let next = d.statements(module, ir_function, block, list, context)->Done_1;
            &&& gets(module, ir_function, blocks, decide, m, run.events, r.1, r.0)
            &&& r.1.taken == run.taken
            &&& lands(run.flow, r.1, next, context)
        }),
    decreases fuel, list, 0nat,
{
    if list.len() == 0 {
        (lemma_none(module, ir_function, blocks, decide, m, m, 0), m)
    } else {
        let e = d.statement(module, ir_function, block, list[0], context)->Done_0;
        let next = d.statement(module, ir_function, block, list[0], context)->Done_1;
        let rest = list.subrange(1, list.len() as int);
        let f = e.statements(module, ir_function, next, rest, context)->Done_0;
        assert(e.statements(module, ir_function, next, rest, context) is Done);
        if next.termination is None {
            lemma_statements_fresh(e, module, ir_function, next, rest, context);
            lemma_prefix(e.function.blocks, f.function.blocks, blocks);
        }
        lemma_statements_complete(e, module, ir_function, next, rest, context, blocks);
        let (one, m1) = lemma_statement_runs(
            d,
            module,
            ir_function,
            block,
            list[0],
            context,
            blocks,
            decide,
            fuel,
            m,
        );
        let run = run_statement(list[0], decide, m.taken, fuel)->0;
        if run.flow is Next {
            let (two, m2) = lemma_statements_run(
                e,
                module,
                ir_function,
                next,
                rest,
                context,
                blocks,
                decide,
                fuel,
                m1,
            );
            let more = run_list(rest, decide, m1.taken, fuel)->0;
            let path = lemma_gets_on(
                module,
                ir_function,
                blocks,
                decide,
                m,
                run.events,
                m1,
                one,
                more.events,
                m2,
                two,
            );
            (path, m2)
        } else {
            (one, m1)
        }
    }
}

proof fn lemma_statement_runs(
    d: Draft,
    module: Module,
    ir_function: IrFunction,
    block: BlockView,
    statement: Statement,
    context: LoopContext,
    blocks: Seq<BlockView>,
    decide: spec_fn(nat) -> bool,
    fuel: nat,
    m: Machine,
) -> (r: (Path, Machine))
    requires
        are_labeled(blocks),
        d.statement(module, ir_function, block, statement, context) is Done,
        d.statement(
            module,
            ir_function,
            block,
            statement,
            context,
        )->Done_0.function.blocks.is_prefix_of(blocks),
        is_in(blocks, d.statement(module, ir_function, block, statement, context)->Done_1),
        is_inside(m, block),
        run_statement(statement, decide, m.taken, fuel) is Some,
    ensures
        ({
            let run = run_statement(statement, decide, m.taken, fuel)->0;
            let next = d.statement(module, ir_function, block, statement, context)->Done_1;
            &&& gets(module, ir_function, blocks, decide, m, run.events, r.1, r.0)
            &&& r.1.taken == run.taken
            &&& lands(run.flow, r.1, next, context)
        }),
    decreases fuel, statement, 2nat,
{
    match statement {
        Statement::Block(list) => lemma_nested_runs(
            d,
            module,
            ir_function,
            block,
            statement,
            context,
            blocks,
            decide,
            fuel,
            m,
        ),
        Statement::If { condition, accept, reject } => lemma_condition_runs(
            d,
            module,
            ir_function,
            block,
            statement,
            context,
            blocks,
            decide,
            fuel,
            m,
        ),
        Statement::Loop { body, continuing } => lemma_entered_loop_runs(
            d,
            module,
            ir_function,
            block,
            statement,
            context,
            blocks,
            decide,
            fuel,
            m,
        ),
        _ => lemma_simple_runs(
            d,
            module,
            ir_function,
            block,
            statement,
            context,
            blocks,
            decide,
            fuel,
            m,
        ),
    }
}

proof fn lemma_simple_runs(
    d: Draft,
    module: Module,
    ir_function: IrFunction,
    block: BlockView,
    statement: Statement,
    context: LoopContext,
    blocks: Seq<BlockView>,
    decide: spec_fn(nat) -> bool,
    fuel: nat,
    m: Machine,
) -> (r: (Path, Machine))
    requires
        !(statement is Block || statement is If || statement is Loop),
        d.statement(module, ir_function, block, statement, context) is Done,
        is_in(blocks, d.statement(module, ir_function, block, statement, context)->Done_1),
        is_inside(m, block),
        run_statement(statement, decide, m.taken, fuel) is Some,
    ensures
        ({
            let run = run_statement(statement, decide, m.taken, fuel)->0;
            let next = d.statement(module, ir_function, block, statement, context)->Done_1;
            &&& gets(module, ir_function, blocks, decide, m, run.events, r.1, r.0)
            &&& r.1.taken == run.taken
            &&& lands(run.flow, r.1, next, context)
        }),
{
    let next = d.statement(module, ir_function, block, statement, context)->Done_1;
    let whole = block_with(blocks, block.label_id);
    match statement {
        Statement::Store { pointer, value } => {
            let (pointer_id, middle, value_id, after) = law_values_are_stored(
                d,
                module,
                ir_function,
                block,
                statement,
                context,
            );
            lemma_store_extends(d, module, ir_function, block, pointer, value);
            let n = block.body.len() as int;
            let k = next.body.len() as int;
            let segment = next.body.subrange(n, k);
            assert(block.body =~= next.body.subrange(0, n));
            assert(block.body + segment =~= next.body);
            assert(next.body =~= whole.body.subrange(0, k));
            assert(whole.body.subrange(n, k) =~= segment);
            assert(segment.last() == next.body.last());
            lemma_walk(blocks, decide, m, k as nat);
            let m2 = Machine { at: k as nat, trace: m.trace + segment, ..m };
            assert(stores(
                d,
                module,
                ir_function,
                pointer,
                value,
                block,
                middle,
                after,
                segment,
            ));
            let path = lemma_one(
                module,
                ir_function,
                blocks,
                decide,
                m,
                Event::Store(pointer, value),
                m2,
                (k - n) as nat,
                segment,
            );
            (path, m2)
        },
        Statement::Return { value } => {
            law_jumps_leave_the_block(d, module, ir_function, block, statement, context);
            let last = next.termination->0;
            let n = block.body.len() as int;
            let k = next.body.len() as int;
            if let Some(handle) = value {
                lemma_expression_extends(d, module, ir_function, block, handle);
            } else {
                assert(block.body.subrange(0, n) =~= block.body);
            }
            assert(block.body.is_prefix_of(next.body));
            let segment = next.body.subrange(n, k).push(last);
            assert(block.body =~= next.body.subrange(0, n));
            lemma_leave(blocks, decide, m);
            let m2 = Machine { at: k as nat, trace: m.trace + segment, returned: true, ..m };
            assert((m.trace + next.body.subrange(n, k)).push(last) =~= m.trace + segment);
            if let Some(handle) = value {
                let with = choose|with: BlockView|
                    {
                        &&& #[trigger] is_valued(
                            d.scope(module, ir_function),
                            handle,
                            ir_function.expressions.count(),
                            block,
                            last.operands[0],
                            with,
                        )
                        &&& with.body == next.body
                    };
                assert(block.body + segment.subrange(0, segment.len() - 1) =~= with.body) by {
                    assert(segment.subrange(0, segment.len() - 1) =~= next.body.subrange(n, k));
                }
                assert(segment.last() == last);
                assert(computes(
                    d,
                    module,
                    ir_function,
                    handle,
                    block,
                    segment.last().operands[0],
                    with,
                    segment,
                    1,
                ));
            } else {
                assert(segment.last() == last);
                assert(segment.len() == 1);
            }
            let path = lemma_one(
                module,
                ir_function,
                blocks,
                decide,
                m,
                Event::Return(value),
                m2,
                (k - n + 1) as nat,
                segment,
            );
            (path, m2)
        },
        Statement::Break => {
            law_jumps_leave_the_block(d, module, ir_function, block, statement, context);
            let id = context.break_id->0;
            (lemma_go(module, ir_function, blocks, decide, m, next, id), m.goes(id))
        },
        _ => {
            law_jumps_leave_the_block(d, module, ir_function, block, statement, context);
            let id = context.continuing_id->0;
            (lemma_go(module, ir_function, blocks, decide, m, next, id), m.goes(id))
        },
    }
}

proof fn lemma_nested_runs(
    d: Draft,
    module: Module,
    ir_function: IrFunction,
    block: BlockView,
    statement: Statement,
    context: LoopContext,
    blocks: Seq<BlockView>,
    decide: spec_fn(nat) -> bool,
    fuel: nat,
    m: Machine,
) -> (r: (Path, Machine))
    requires
        statement is Block,
        are_labeled(blocks),
        d.statement(module, ir_function, block, statement, context) is Done,
        d.statement(
            module,
            ir_function,
            block,
            statement,
            context,
        )->Done_0.function.blocks.is_prefix_of(blocks),
        is_inside(m, block),
        run_statement(statement, decide, m.taken, fuel) is Some,
    ensures
        ({
            let run = run_statement(statement, decide, m.taken, fuel)->0;
            let next = d.statement(module, ir_function, block, statement, context)->Done_1;
            &&& gets(module, ir_function, blocks, decide, m, run.events, r.1, r.0)
            &&& r.1.taken == run.taken
            &&& lands(run.flow, r.1, next, context)
        }),
    decreases fuel, statement, 1nat,
{
    let list = statement->Block_0@;
    let e = d.statement(module, ir_function, block, statement, context)->Done_0;
    let d1 = d.generate_id()->Done_0;
    let scope_id = d.generate_id()->Done_1;
    let left = block.terminate(op_branch(scope_id));
    let d2 = d1.add(left).generate_id()->Done_0;
    let merge_id = d1.add(left).generate_id()->Done_1;
    let n = d.function.blocks.len() as int;
    lemma_block_fresh(d2, module, ir_function, scope_id, list, Some(merge_id), context);
    lemma_prefix(d2.function.blocks, e.function.blocks, blocks);
    lemma_prefix_item(d2.function.blocks, blocks, n);
    lemma_block_with(blocks, n);
    let one = lemma_go(module, ir_function, blocks, decide, m, left, scope_id);
    let (two, m2) = lemma_block_runs(
        d2,
        module,
        ir_function,
        scope_id,
        list,
        merge_id,
        context,
        blocks,
        decide,
        fuel,
        m.goes(scope_id),
    );
    let run = run_list(list, decide, m.taken, fuel)->0;
    let path = lemma_gets_on(
        module,
        ir_function,
        blocks,
        decide,
        m,
        Seq::empty(),
        m.goes(scope_id),
        one,
        run.events,
        m2,
        two,
    );
    lemma_events(run.events);
    (path, m2)
}

proof fn lemma_condition_runs(
    d: Draft,
    module: Module,
    ir_function: IrFunction,
    block: BlockView,
    statement: Statement,
    context: LoopContext,
    blocks: Seq<BlockView>,
    decide: spec_fn(nat) -> bool,
    fuel: nat,
    m: Machine,
) -> (r: (Path, Machine))
    requires
        statement is If,
        are_labeled(blocks),
        d.statement(module, ir_function, block, statement, context) is Done,
        d.statement(
            module,
            ir_function,
            block,
            statement,
            context,
        )->Done_0.function.blocks.is_prefix_of(blocks),
        is_inside(m, block),
        run_statement(statement, decide, m.taken, fuel) is Some,
    ensures
        ({
            let run = run_statement(statement, decide, m.taken, fuel)->0;
            let next = d.statement(module, ir_function, block, statement, context)->Done_1;
            &&& gets(module, ir_function, blocks, decide, m, run.events, r.1, r.0)
            &&& r.1.taken == run.taken
            &&& lands(run.flow, r.1, next, context)
        }),
    decreases fuel, statement, 1nat,
{
    let condition = statement->If_condition;
    let accept = statement->If_accept@;
    let reject = statement->If_reject@;
    let e = d.statement(module, ir_function, block, statement, context)->Done_0;
    let d1 = d.fork(module, ir_function, block, condition)->Done_0;
    let ids = d.fork(module, ir_function, block, condition)->Done_1;
    let exit_id = Some(ids.2);
    let d2 = d1.block(module, ir_function, ids.0, accept, exit_id, context)->Done_0;
    assert(d1.block(module, ir_function, ids.0, accept, exit_id, context) is Done);
    assert(d2.block(module, ir_function, ids.1, reject, exit_id, context) is Done);
    let n = d.function.blocks.len() as int;
    lemma_fork(d, module, ir_function, block, condition);
    lemma_fork_extends(d, module, ir_function, block, condition);
    lemma_block_fresh(d1, module, ir_function, ids.0, accept, exit_id, context);
    lemma_block_fresh(d2, module, ir_function, ids.1, reject, exit_id, context);
    lemma_prefix(d2.function.blocks, e.function.blocks, blocks);
    lemma_prefix(d1.function.blocks, d2.function.blocks, blocks);
    lemma_prefix_item(d1.function.blocks, blocks, n);
    lemma_block_with(blocks, n);
    let fork = blocks[n];
    let (one, m1) = lemma_decides(
        d,
        module,
        ir_function,
        block,
        condition,
        fork,
        ids.0,
        ids.1,
        ids.2,
        blocks,
        decide,
        m,
    );
    let list = if decide(m.taken) {
        accept
    } else {
        reject
    };
    let (two, m2) = if decide(m.taken) {
        lemma_block_runs(
            d1,
            module,
            ir_function,
            ids.0,
            accept,
            ids.2,
            context,
            blocks,
            decide,
            fuel,
            m1,
        )
    } else {
        lemma_block_runs(
            d2,
            module,
            ir_function,
            ids.1,
            reject,
            ids.2,
            context,
            blocks,
            decide,
            fuel,
            m1,
        )
    };
    let run = run_list(list, decide, m1.taken, fuel)->0;
    let path = lemma_gets_on(
        module,
        ir_function,
        blocks,
        decide,
        m,
        seq![Event::Decision(condition)],
        m1,
        one,
        run.events,
        m2,
        two,
    );
    (path, m2)
}

/// A machine at the condition of a fork decides.
proof fn lemma_decides(
    d: Draft,
    module: Module,
    ir_function: IrFunction,
    block: BlockView,
    condition: Handle<Expression>,
    fork: BlockView,
    accept_id: Word,
    reject_id: Word,
    merge_id: Word,
    blocks: Seq<BlockView>,
    decide: spec_fn(nat) -> bool,
    m: Machine,
) -> (r: (Path, Machine))
    requires
        is_fork(
            d,
            module,
            ir_function,
            block,
            condition,
            fork,
            accept_id,
            reject_id,
            merge_id,
        ),
        block_with(blocks, block.label_id) == fork,
        block.body.is_prefix_of(fork.body),
        block.body.len() < fork.body.len(),
        is_inside(m, block),
    ensures
        gets(
            module,
            ir_function,
            blocks,
            decide,
            m,
            seq![Event::Decision(condition)],
            r.1,
            r.0,
        ),
        r.1.taken == m.taken + 1,
        is_at_start(
            r.1,
            Some(
                if decide(m.taken) {
                    accept_id
                } else {
                    reject_id
                },
            ),
        ),
{
    let last = fork.termination->0;
    let n = block.body.len() as int;
    let k = fork.body.len() as int;
    let part = fork.body.subrange(n, k);
    let segment = part.push(last);
    lemma_leave(blocks, decide, m);
    let m2 = Machine {
        label_id: if decide(m.taken) {
            accept_id
        } else {
            reject_id
        },
        at: 0,
        taken: m.taken + 1,
        trace: m.trace + segment,
        returned: false,
    };
    assert((m.trace + part).push(last) =~= m.trace + segment);
    let (ty, with) = choose|ty: crate::spv::lookup::LookupType, with: BlockView|
        {
            &&& #[trigger] crate::spv::expression_laws::is_value(
                d.scope(module, ir_function),
                condition,
                ir_function.expressions.count(),
                block,
                (last.operands[0], ty),
                with,
            )
            &&& fork.body == with.body.push(fork.body.last())
        };
    assert(segment.last() == last);
    assert(segment[segment.len() - 2] == fork.body.last());
    assert(block.body =~= fork.body.subrange(0, n));
    assert(block.body + segment.subrange(0, segment.len() - 2) =~= with.body) by {
        assert(segment.subrange(0, segment.len() - 2) =~= fork.body.subrange(n, k - 1));
        assert(with.body =~= fork.body.subrange(0, k - 1));
    }
    assert(is_valued(
        d.scope(module, ir_function),
        condition,
        ir_function.expressions.count(),
        block,
        last.operands[0],
        with,
    ));
    assert(computes(
        d,
        module,
        ir_function,
        condition,
        block,
        segment.last().operands[0],
        with,
        segment,
        2,
    ));
    let path = lemma_one(
        module,
        ir_function,
        blocks,
        decide,
        m,
        Event::Decision(condition),
        m2,
        (k - n + 1) as nat,
        segment,
    );
    (path, m2)
}

proof fn lemma_entered_loop_runs(
    d: Draft,
    module: Module,
    ir_function: IrFunction,
    block: BlockView,
    statement: Statement,
    context: LoopContext,
    blocks: Seq<BlockView>,
    decide: spec_fn(nat) -> bool,
    fuel: nat,
    m: Machine,
) -> (r: (Path, Machine))
    requires
        statement is Loop,
        are_labeled(blocks),
        d.statement(module, ir_function, block, statement, context) is Done,
        d.statement(
            module,
            ir_function,
            block,
            statement,
            context,
        )->Done_0.function.blocks.is_prefix_of(blocks),
        is_inside(m, block),
        run_statement(statement, decide, m.taken, fuel) is Some,
    ensures
        ({
            let run = run_statement(statement, decide, m.taken, fuel)->0;
            let next = d.statement(module, ir_function, block, statement, context)->Done_1;
            &&& gets(module, ir_function, blocks, decide, m, run.events, r.1, r.0)
            &&& r.1.taken == run.taken
            &&& lands(run.flow, r.1, next, context)
        }),
    decreases fuel, statement, 1nat,
{
    let body = statement->Loop_body@;
    let continuing = statement->Loop_continuing@;
    let e = d.statement(module, ir_function, block, statement, context)->Done_0;
    let d1 = d.enter_loop(block)->Done_0;
    let ids = d.enter_loop(block)->Done_1;
    let inside = LoopContext { continuing_id: Some(ids.3), break_id: Some(ids.1) };
    let after = LoopContext { continuing_id: None, break_id: Some(ids.1) };
    let d2 = d1.block(module, ir_function, ids.2, body, Some(ids.3), inside)->Done_0;
    assert(d1.block(module, ir_function, ids.2, body, Some(ids.3), inside) is Done);
    assert(d2.block(module, ir_function, ids.3, continuing, Some(ids.0), after) is Done);
    let n = d.function.blocks.len() as int;
    lemma_enter(d, block);
    lemma_block_fresh(d1, module, ir_function, ids.2, body, Some(ids.3), inside);
    lemma_block_fresh(d2, module, ir_function, ids.3, continuing, Some(ids.0), after);
    lemma_prefix(d2.function.blocks, e.function.blocks, blocks);
    lemma_prefix(d1.function.blocks, d2.function.blocks, blocks);
    lemma_prefix_item(d1.function.blocks, blocks, n);
    lemma_prefix_item(d1.function.blocks, blocks, n + 1);
    lemma_block_with(blocks, n);
    lemma_block_with(blocks, n + 1);
    let one = lemma_go(module, ir_function, blocks, decide, m, blocks[n], ids.0);
    let (two, m2) = lemma_loop_runs(
        d1,
        d2,
        module,
        ir_function,
        statement,
        ids,
        blocks,
        decide,
        fuel,
        m.goes(ids.0),
    );
    let run = run_loop(statement, decide, m.taken, fuel)->0;
    let path = lemma_gets_on(
        module,
        ir_function,
        blocks,
        decide,
        m,
        Seq::empty(),
        m.goes(ids.0),
        one,
        run.events,
        m2,
        two,
    );
    lemma_events(run.events);
    (path, m2)
}

/// A machine at the head of a loop starts a round.
proof fn lemma_round(
    module: Module,
    ir_function: IrFunction,
    blocks: Seq<BlockView>,
    decide: spec_fn(nat) -> bool,
    m: Machine,
    head: BlockView,
    id: Word,
) -> (r: (Path, Machine))
    requires
        is_at_start(m, Some(head.label_id)),
        block_with(blocks, head.label_id) == head,
        head.body.len() == 1,
        head.body[0].op == spirv::Op::LoopMerge,
        head.termination is Some,
        goes_to(head.termination->0, id),
    ensures
        gets(module, ir_function, blocks, decide, m, seq![Event::Round], r.1, r.0),
        r.1.taken == m.taken,
        is_at_start(r.1, Some(id)),
{
    lemma_leave(blocks, decide, m);
    let segment = head.body.subrange(0, 1);
    assert(segment.last() == head.body[0]);
    let m2 = Machine { label_id: id, at: 0, trace: m.trace + segment, ..m };
    let path = lemma_one(
        module,
        ir_function,
        blocks,
        decide,
        m,
        Event::Round,
        m2,
        2,
        segment,
    );
    (path, m2)
}

proof fn lemma_loop_runs(
    d1: Draft,
    d2: Draft,
    module: Module,
    ir_function: IrFunction,
    statement: Statement,
    ids: (Word, Word, Word, Word),
    blocks: Seq<BlockView>,
    decide: spec_fn(nat) -> bool,
    fuel: nat,
    m: Machine,
) -> (r: (Path, Machine))
    requires
        statement is Loop,
        are_labeled(blocks),
        is_at_start(m, Some(ids.0)),
        run_loop(statement, decide, m.taken, fuel) is Some,
        d2.function.blocks.is_prefix_of(blocks),
        ({
            let inside = LoopContext { continuing_id: Some(ids.3), break_id: Some(ids.1) };
            let after = LoopContext { continuing_id: None, break_id: Some(ids.1) };
            let head = block_with(blocks, ids.0);
            let one = d1.block(
                module,
                ir_function,
                ids.2,
                statement->Loop_body@,
                Some(ids.3),
                inside,
            );
            let two = d2.block(
                module,
                ir_function,
                ids.3,
                statement->Loop_continuing@,
                Some(ids.0),
                after,
            );
            &&& one is Done && one->Done_0 == d2
            &&& two is Done && two->Done_0.function.blocks.is_prefix_of(blocks)
            &&& head.label_id == ids.0
            &&& head.body.len() == 1
            &&& head.body[0].op == spirv::Op::LoopMerge
            &&& head.termination is Some
            &&& goes_to(head.termination->0, ids.2)
        }),
    ensures
        ({
            let run = run_loop(statement, decide, m.taken, fuel)->0;
            &&& gets(module, ir_function, blocks, decide, m, run.events, r.1, r.0)
            &&& r.1.taken == run.taken
            &&& match run.flow {
                Flow::Next => is_at_start(r.1, Some(ids.1)),
                Flow::Return => r.1.returned,
                _ => false,
            }
        }),
    decreases fuel, statement, 0nat,
{
    let body = statement->Loop_body@;
    let continuing = statement->Loop_continuing@;
    let inside = LoopContext { continuing_id: Some(ids.3), break_id: Some(ids.1) };
    let after = LoopContext { continuing_id: None, break_id: Some(ids.1) };
    let head = block_with(blocks, ids.0);
    let less = (fuel - 1) as nat;
    let (start, m1) = lemma_round(module, ir_function, blocks, decide, m, head, ids.2);
    let first = run_list(body, decide, m.taken, less)->0;
    let (one, m2) = lemma_block_runs(
        d1,
        module,
        ir_function,
        ids.2,
        body,
        ids.3,
        inside,
        blocks,
        decide,
        less,
        m1,
    );
    let path1 = lemma_gets_on(
        module,
        ir_function,
        blocks,
        decide,
        m,
        seq![Event::Round],
        m1,
        start,
        first.events,
        m2,
        one,
    );
    let before = seq![Event::Round] + first.events;
    if first.flow is Break || first.flow is Return {
        (path1, m2)
    } else {
        let second = run_list(continuing, decide, m2.taken, less)->0;
        let (two, m3) = lemma_block_runs(
            d2,
            module,
            ir_function,
            ids.3,
            continuing,
            ids.0,
            after,
            blocks,
            decide,
            less,
            m2,
        );
        let path2 = lemma_gets_on(
            module,
            ir_function,
            blocks,
            decide,
            m,
            before,
            m2,
            path1,
            second.events,
            m3,
            two,
        );
        if second.flow is Next {
            let (three, m4) = lemma_loop_runs(
                d1,
                d2,
                module,
                ir_function,
                statement,
                ids,
                blocks,
                decide,
                less,
                m3,
            );
            let third = run_loop(statement, decide, m3.taken, less)->0;
            let path3 = lemma_gets_on(
                module,
                ir_function,
                blocks,
                decide,
                m,
                before + second.events,
                m3,
                path2,
                third.events,
                m4,
                three,
            );
            (path3, m4)
        } else {
            (path2, m3)
        }
    }
}

/// The blocks of a function do what its statements do: a machine that starts at the first block
/// and decides as the statements are decided returns, and what it has executed by then are the
/// instructions of the same events, in the same order, and no others. This holds of every way
/// through the function that comes to an end.
pub proof fn law_blocks_do_what_statements_do(
    w: WriterView,
    module: Module,
    ir_function: IrFunction,
    decide: spec_fn(nat) -> bool,
    fuel: nat,
) -> (path: Path)
    ensures
        (
            draft(w, FunctionView::empty()).function(module, ir_function),
            run_function(ir_function, decide, fuel),
        ) matches (Outcome::Done(e, _), Some(events)) ==> {
            let blocks = e.function.blocks;
            let start = Machine {
                label_id: blocks[0].label_id,
                at: 0,
                taken: 0,
                trace: Seq::empty(),
                returned: false,
            };
            let end = start.steps(blocks, decide, path.steps);
            &&& blocks.len() > 0
            &&& end.returned
            &&& are_executed(module, ir_function, events, path.segments)
            &&& end.trace == flatten(path.segments)
        },
{
    let d = draft(w, FunctionView::empty());
    law_labels_of_function_are_distinct(w, module, ir_function);
    lemma_signature_grows(d, module, ir_function);
    if d.function(module, ir_function) is Done && run_function(ir_function, decide, fuel) is Some {
        let e = d.function(module, ir_function)->Done_0;
        let d1 = d.signature(module, ir_function)->Done_0;
        let d2 = d1.generate_id()->Done_0;
        let main_id = d1.generate_id()->Done_1;
        let outside = LoopContext::outside();
        let list = ir_function.body@;
        let blocks = e.function.blocks;
        let first = BlockView::start(main_id);
        let f = d2.statements(module, ir_function, first, list, outside)->Done_0;
        let next = d2.statements(module, ir_function, first, list, outside)->Done_1;
        let last = closed_block(next, None);
        let n = f.function.blocks.len() as int;
        assert(blocks == f.function.blocks.push(last));
        assert(blocks[n] == last);
        assert(next.body.subrange(0, next.body.len() as int) =~= next.body);
        lemma_in(blocks, n, next);
        assert(f.function.blocks.is_prefix_of(blocks)) by {
            assert(blocks.subrange(0, n) =~= f.function.blocks);
        }
        crate::spv::label_laws::law_labels_are_distinct(
            d2,
            module,
            ir_function,
            main_id,
            list,
            None,
            outside,
        );
        assert(d2.function.blocks.len() == 0);
        assert(blocks[0].label_id == main_id);
        let m = Machine {
            label_id: main_id,
            at: 0,
            taken: 0,
            trace: Seq::empty(),
            returned: false,
        };
        let (path, m2) = lemma_statements_run(
            d2,
            module,
            ir_function,
            first,
            list,
            outside,
            blocks,
            decide,
            fuel,
            m,
        );
        let run = run_list(list, decide, 0, fuel)->0;
        assert(Seq::<InstructionView>::empty() + flatten(path.segments) =~= flatten(
            path.segments,
        ));
        if run.flow is Next {
            lemma_leave(blocks, decide, m2);
            let instruction = last.termination->0;
            let segment = seq![instruction];
            let k = last.body.len() as int;
            let m3 = Machine { trace: m2.trace + segment, returned: true, ..m2 };
            assert((m2.trace + last.body.subrange(k, k)).push(instruction) =~= m2.trace + segment);
            assert(segment.last() == instruction);
            let more = lemma_one(
                module,
                ir_function,
                blocks,
                decide,
                m2,
                Event::Return(None),
                m3,
                1,
                segment,
            );
            let whole = lemma_gets_on(
                module,
                ir_function,
                blocks,
                decide,
                m,
                run.events,
                m2,
                path,
                seq![Event::Return(None)],
                m3,
                more,
            );
            assert(run.events + seq![Event::Return(None)] =~= run.events.push(
                Event::Return(None),
            ));
            assert(Seq::<InstructionView>::empty() + flatten(whole.segments) =~= flatten(
                whole.segments,
            ));
            whole
        } else {
            path
        }
    } else {
        Path { steps: 0, segments: Seq::empty() }
    }
}

} // verus!

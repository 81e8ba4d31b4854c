//! Declaring constants.

use crate::arena::Handle;
use crate::ir::{ArraySize, Bytes, Constant, ConstantInner, Module, ScalarValue, Type, TypeInner};
use crate::spv::error::Error;
use crate::spv::instruction::InstructionView;
use crate::spv::instructions::{
    instruction_constant, instruction_constant_composite, instruction_constant_false,
    instruction_constant_true, op_constant, op_constant_composite, op_constant_false,
    op_constant_true,
};
use crate::spv::lookup::{LocalType, LookupType};
use crate::spv::model::{outcome, Outcome, WriterView};
use crate::spv::types::{listed, scalar};
use crate::spv::words::Word;
use crate::spv::writer::Writer;
use vstd::prelude::*;

verus! {

/// The words of a number of `width` bytes, high word first, if that is four or eight bytes.
pub open spec fn number_words(width: Bytes, high: u32, low: u32) -> Option<Seq<Word>> {
    if width == 4 {
        Some(seq![low])
    } else if width == 8 {
        Some(seq![high, low])
    } else {
        None
    }
}

/// The declaration of a scalar constant, if its width is known to the writer.
pub open spec fn scalar_constant(type_id: Word, id: Word, width: Bytes, value: ScalarValue) -> Option<
    InstructionView,
> {
    let words = match value {
        ScalarValue::Sint(val) => number_words(width, (val >> 32) as u32, val as u32),
        ScalarValue::Uint(val) => number_words(width, (val >> 32) as u32, val as u32),
        ScalarValue::Float { single, double } => if width == 4 {
            number_words(width, 0, single)
        } else {
            number_words(width, (double >> 32) as u32, double as u32)
        },
        ScalarValue::Bool(_) => Some(Seq::empty()),
    };
    match (value, words) {
        (ScalarValue::Bool(true), _) => Some(op_constant_true(type_id, id)),
        (ScalarValue::Bool(false), _) => Some(op_constant_false(type_id, id)),
        (_, Some(words)) => Some(op_constant(type_id, id, words)),
        (_, None) => None,
    }
}

impl WriterView {
    /// Declares a constant that is not looked up again.
    pub open spec fn new_constant(self, type_id: Word, value: Seq<Word>) -> Outcome<
        WriterView,
        Word,
    > {
        self.generate_id().bind(
            |w: WriterView, id: Word|
                Outcome::Done(w.declare(op_constant(type_id, id, value)), id),
        )
    }

    /// The identifier of a constant, which is declared unless it was before. At most `depth`
    /// constants of the module are not looked up yet.
    pub open spec fn constant_id_within(
        self,
        module: Module,
        handle: Handle<Constant>,
        depth: nat,
    ) -> Outcome<WriterView, Word>
        decreases depth, 1nat, 0nat,
    {
        if self.lookup_constant.contains_key(handle) {
            Outcome::Done(self, self.lookup_constant[handle])
        } else if depth == 0 || !module.constants.contains(handle) {
            Outcome::Stuck
        } else {
            self.generate_id().bind(
                |w: WriterView, id: Word|
                    w.remember_constant(handle, id).define_constant(
                        module,
                        id,
                        module.constants.at(handle).inner,
                        (depth - 1) as nat,
                    ).bind(|w: WriterView, _u: ()| Outcome::Done(w, id)),
            )
        }
    }

    /// Declares the constant `id`.
    pub open spec fn define_constant(
        self,
        module: Module,
        id: Word,
        inner: ConstantInner,
        depth: nat,
    ) -> Outcome<WriterView, ()>
        decreases depth, 3nat, 0nat,
    {
        match inner {
            ConstantInner::Scalar { width, value } => self.type_id(
                module.types,
                scalar(value.kind(), width),
            ).bind(
                |w: WriterView, type_id: Word|
                    match scalar_constant(type_id, id, width, value) {
                        Some(instruction) => Outcome::Done(w.declare(instruction), ()),
                        None => Outcome::Stuck,
                    },
            ),
            ConstantInner::Composite { ty, components } => self.constant_ids(
                module,
                components@,
                0,
                Seq::empty(),
                depth,
            ).bind(
                |w: WriterView, constituent_ids: Seq<Word>|
                    w.array_length_id(module, ty, depth).bind(
                        |w: WriterView, _u: ()|
                            w.type_id(module.types, LookupType::Handle(ty)).bind(
                                |w: WriterView, type_id: Word|
                                    Outcome::Done(
                                        w.declare(
                                            op_constant_composite(type_id, id, constituent_ids),
                                        ),
                                        (),
                                    ),
                            ),
                    ),
            ),
        }
    }

    /// Declares the length of an array type, if it is a constant.
    pub open spec fn array_length_id(self, module: Module, ty: Handle<Type>, depth: nat) -> Outcome<
        WriterView,
        (),
    >
        decreases depth, 2nat, 0nat,
    {
        if !module.types.contains(ty) {
            Outcome::Stuck
        } else {
            match module.types.at(ty).inner {
                TypeInner::Array { size: ArraySize::Constant(length), .. } => self.constant_id_within(
                    module,
                    length,
                    depth,
                ).bind(|w: WriterView, _id: Word| Outcome::Done(w, ())),
                _ => Outcome::Done(self, ()),
            }
        }
    }

    /// The identifiers of the constants `handles` from the `i`-th on, behind `ids`.
    pub open spec fn constant_ids(
        self,
        module: Module,
        handles: Seq<Handle<Constant>>,
        i: nat,
        ids: Seq<Word>,
        depth: nat,
    ) -> Outcome<WriterView, Seq<Word>>
        decreases depth, 2nat, handles.len() - i,
    {
        if i >= handles.len() {
            Outcome::Done(self, ids)
        } else {
            self.constant_id_within(module, handles[i as int], depth).bind(
                |w: WriterView, id: Word|
                    w.constant_ids(module, handles, i + 1, ids.push(id), depth),
            )
        }
    }

    /// The identifier of a constant, which is declared unless it was before.
    #[verifier::opaque]
    pub open spec fn constant_id(self, module: Module, handle: Handle<Constant>) -> Outcome<
        WriterView,
        Word,
    > {
        self.constant_id_within(module, handle, module.constants.count())
    }

    /// The identifier of the initial value of a variable, if it has one.
    pub open spec fn initializer_id(self, module: Module, init: Option<Handle<Constant>>) -> Outcome<
        WriterView,
        Option<Word>,
    > {
        match init {
            Some(handle) => self.constant_id(module, handle).bind(
                |w: WriterView, id: Word| Outcome::Done(w, Some(id)),
            ),
            None => Outcome::Done(self, None),
        }
    }
}

impl Writer {
    /// Declares a constant that is not looked up again.
    pub fn create_constant(&mut self, type_id: Word, value: &[Word]) -> (id: Word)
        requires
            old(self)@.id_count < u32::MAX,
        ensures
            Outcome::Done(final(self)@, id) == old(self)@.new_constant(type_id, value@),
    {
        let id = self.generate_id();
        self.declare(&instruction_constant(type_id, id, value));
        id
    }

    fn constant_id_within(
        &mut self,
        handle: Handle<Constant>,
        module: &Module,
        Ghost(depth): Ghost<nat>,
    ) -> (result: Result<Word, Error>)
        requires
            !(old(self)@.constant_id_within(*module, handle, depth) is Stuck),
        ensures
            outcome(final(self)@, result) == old(self)@.constant_id_within(*module, handle, depth),
        decreases depth, 1nat, 0nat,
    {
        if let Some(id) = self.find_constant(handle) {
            return Ok(id);
        }
        let id = self.generate_id();
        self.remember_constant(handle, id);
        let inner = &module.constants.get(handle).inner;
        self.constant_type_within(id, inner, module, Ghost((depth - 1) as nat))?;
        Ok(id)
    }

    fn constant_type_within(
        &mut self,
        id: Word,
        inner: &ConstantInner,
        module: &Module,
        Ghost(depth): Ghost<nat>,
    ) -> (result: Result<(), Error>)
        requires
            !(old(self)@.define_constant(*module, id, *inner, depth) is Stuck),
        ensures
            outcome(final(self)@, result) == old(self)@.define_constant(
                *module,
                id,
                *inner,
                depth,
            ),
        decreases depth, 3nat, 0nat,
    {
        let instruction = match inner {
            ConstantInner::Scalar { width, value } => {
                let type_id = self.get_type_id(
                    &module.types,
                    LookupType::Local(
                        LocalType::Scalar { kind: value.scalar_kind(), width: *width },
                    ),
                )?;
                let (high, low): (u32, u32) = match *value {
                    ScalarValue::Sint(val) => ((val >> 32) as u32, val as u32),
                    ScalarValue::Uint(val) => ((val >> 32) as u32, val as u32),
                    ScalarValue::Float { single, double } => {
                        if *width == 4 {
                            (0, single)
                        } else {
                            ((double >> 32) as u32, double as u32)
                        }
                    },
                    ScalarValue::Bool(_) => (0, 0),
                };
                match *value {
                    ScalarValue::Bool(true) => instruction_constant_true(type_id, id),
                    ScalarValue::Bool(false) => instruction_constant_false(type_id, id),
                    _ => {
                        if *width == 4 {
                            let solo = [low];
                            assert(solo@ =~= seq![low]);
                            instruction_constant(type_id, id, &solo)
                        } else {
                            let pair = [high, low];
                            assert(pair@ =~= seq![high, low]);
                            instruction_constant(type_id, id, &pair)
                        }
                    },
                }
            },
            ConstantInner::Composite { ty, components } => {
                let constituent_ids = self.write_constituents(components, module, Ghost(depth))?;
                // Get the size constant for arrays
                if let TypeInner::Array { size: ArraySize::Constant(length), .. } =
                    &module.types.get(*ty).inner {
                    self.constant_id_within(*length, module, Ghost(depth))?;
                }
                let type_id = self.get_type_id(&module.types, LookupType::Handle(*ty))?;
                instruction_constant_composite(type_id, id, constituent_ids.as_slice())
            },
        };
        self.declare(&instruction);
        Ok(())
    }

    /// The identifiers of the constants that a composite constant is made of.
    fn write_constituents(
        &mut self,
        components: &Vec<Handle<Constant>>,
        module: &Module,
        Ghost(depth): Ghost<nat>,
    ) -> (result: Result<Vec<Word>, Error>)
        requires
            !(old(self)@.constant_ids(*module, components@, 0, Seq::empty(), depth) is Stuck),
        ensures
            listed(final(self)@, result) == old(self)@.constant_ids(
                *module,
                components@,
                0,
                Seq::empty(),
                depth,
            ),
        decreases depth, 2nat, 0nat,
    {
        let mut ids: Vec<Word> = Vec::new();
        let mut i: usize = 0;
        let ghost whole = self@.constant_ids(*module, components@, 0, Seq::empty(), depth);
        assert(ids@ =~= Seq::empty());
        while i < components.len()
            invariant
                i <= components@.len(),
                !(whole is Stuck),
                whole == old(self)@.constant_ids(*module, components@, 0, Seq::empty(), depth),
                whole == self@.constant_ids(*module, components@, i as nat, ids@, depth),
            decreases components@.len() - i,
        {
            let id = self.constant_id_within(components[i], module, Ghost(depth))?;
            ids.push(id);
            i = i + 1;
        }
        Ok(ids)
    }

    /// Declares the constant `id`.
    pub fn write_constant_type(&mut self, id: Word, inner: &ConstantInner, module: &Module) -> (result:
        Result<(), Error>)
        requires
            !(old(self)@.define_constant(*module, id, *inner, module.constants.count()) is Stuck),
        ensures
            outcome(final(self)@, result) == old(self)@.define_constant(
                *module,
                id,
                *inner,
                module.constants.count(),
            ),
    {
        self.constant_type_within(id, inner, module, Ghost(module.constants.count()))
    }

    /// The identifier of a constant, which is declared unless it was before.
    pub fn get_constant_id(&mut self, handle: Handle<Constant>, module: &Module) -> (result: Result<
        Word,
        Error,
    >)
        requires
            !(old(self)@.constant_id(*module, handle) is Stuck),
        ensures
            outcome(final(self)@, result) == old(self)@.constant_id(*module, handle),
    {
        proof {
            reveal(WriterView::constant_id);
        }
        self.constant_id_within(handle, module, Ghost(module.constants.count()))
    }

    /// The identifier of the initial value of a variable, if it has one.
    pub(crate) fn write_initializer(&mut self, init: Option<Handle<Constant>>, module: &Module) -> (result:
        Result<Option<Word>, Error>)
        requires
            !(old(self)@.initializer_id(*module, init) is Stuck),
        ensures
            outcome(final(self)@, result) == old(self)@.initializer_id(*module, init),
    {
        match init {
            Some(handle) => {
                let id = self.get_constant_id(handle, module)?;
                Ok(Some(id))
            },
            None => Ok(None),
        }
    }
}

} // verus!

//! The catalog: the kinds of blocks that a program may use, and the
//! connection types that its ports may have.

use crate::error::{Error, TypeRef};
use crate::json::Json;
use crate::register::{registers_view, Register, RegisterView};
use crate::search::{first_match, lemma_first_index_is, lemma_first_index_none};
use crate::text::{same_text, texts_view};
use crate::types::{ExecutionType, ValueView};
use vstd::prelude::*;

verus! {

/// How a kind of block takes part in a run.
///
/// A `Start` block is where a run begins; its outputs are the values that the
/// caller hands in. A `Normal` block runs when execution reaches it, and its
/// outputs are kept in the register. A `Static` block runs whenever one of
/// its outputs is asked for, and nothing of it is kept.
#[derive(Debug, Clone, Copy, PartialEq, Eq, Structural)]
pub enum ExecutionBlockType {
    Start,
    Static,
    Normal,
}

/// What a handler hands back: the values of its outputs, and the lines that
/// it wants the host to print.
#[derive(Debug, PartialEq, Eq)]
pub struct Output {
    pub registers: Vec<Register>,
    pub lines: Vec<String>,
}

/// The mathematical value of an `Output`.
pub struct OutputView {
    pub registers: Seq<RegisterView>,
    pub lines: Seq<Seq<char>>,
}

impl View for Output {
    type V = OutputView;

    open spec fn view(&self) -> OutputView {
        OutputView { registers: registers_view(self.registers@), lines: texts_view(self.lines@) }
    }
}

/// The view of what a handler returned.
pub open spec fn outcome_view(r: Result<Output, String>) -> Result<OutputView, Seq<char>> {
    match r {
        Ok(out) => Ok(out@),
        Err(cause) => Err(cause@),
    }
}

/// The most data inputs, and the most data outputs, that a kind may declare.
pub const MAX_PORTS: usize = 0x4000_0000;

/// The port that carries the `i`-th declared output of a block.
pub open spec fn output_port(i: int) -> int {
    3 + 2 * i
}

/// Whether `input` holds one value for each declared input, of the declared type.
pub open spec fn accepts(declared: Seq<Seq<char>>, input: Seq<RegisterView>) -> bool {
    &&& input.len() == declared.len()
    &&& forall|i: int| 0 <= i < input.len() ==> (#[trigger] input[i]).value.name() == declared[i]
}

/// Whether `out` holds one value for each declared output, of the declared
/// type, filed under the block `block_id` and the port of that output.
pub open spec fn well_formed(declared: Seq<Seq<char>>, block_id: u32, out: Seq<RegisterView>) -> bool {
    &&& out.len() == declared.len()
    &&& forall|i: int|
        0 <= i < out.len() ==> {
            &&& (#[trigger] out[i]).block_id == block_id
            &&& out[i].node_id == output_port(i)
            &&& out[i].value.name() == declared[i]
        }
}

/// A kind of block: what it is called, what it takes and gives, and the
/// handler that computes the one from the other.
///
/// A kind can be described: `modelled` then holds of it, `id`, `name`,
/// `category`, `inputs` and `outputs` say what its functions return, and the
/// result of its handler is a function of the input and of the block it runs
/// for, which `outcome` is. A kind that is written without them is not
/// described, and nothing is claimed of what it returns.
pub trait ExecutionBlock {
    /// Whether the kind is described.
    open spec fn modelled(&self) -> bool {
        false
    }

    /// The id by which programs name the kind.
    open spec fn id(&self) -> u32 {
        0
    }

    open spec fn name(&self) -> Seq<char> {
        Seq::empty()
    }

    open spec fn category(&self) -> ExecutionBlockType {
        ExecutionBlockType::Static
    }

    /// The types of the data inputs, in order.
    open spec fn inputs(&self) -> Seq<Seq<char>> {
        Seq::empty()
    }

    /// The types of the data outputs, in order.
    open spec fn outputs(&self) -> Seq<Seq<char>> {
        Seq::empty()
    }

    /// What the handler returns for `input`, run for the block `block_id`.
    open spec fn outcome(&self, input: Seq<RegisterView>, block_id: u32) -> Result<
        OutputView,
        Seq<char>,
    > {
        Err(Seq::empty())
    }

    fn get_id(&self) -> (r: u32)
        ensures
            self.modelled() ==> r == self.id(),
    ;

    fn get_name(&self) -> (r: String)
        ensures
            self.modelled() ==> r@ == self.name(),
    ;

    fn get_type(&self) -> (r: ExecutionBlockType)
        ensures
            self.modelled() ==> r == self.category(),
    ;

    fn get_inputs(&self) -> (r: Vec<String>)
        ensures
            self.modelled() ==> texts_view(r@) == self.inputs(),
    ;

    fn get_outputs(&self) -> (r: Vec<String>)
        ensures
            self.modelled() ==> texts_view(r@) == self.outputs(),
    ;

    /// Runs the handler for the block `block_id`. The engine calls it on an
    /// input that holds one value for each declared input, of the declared
    /// type.
    fn execute(&self, input: Vec<Register>, block_id: u32) -> (r: Result<Output, String>)
        requires
            self.modelled() ==> accepts(self.inputs(), registers_view(input@)),
        ensures
            self.modelled() ==> outcome_view(r) == self.outcome(registers_view(input@), block_id),
    ;
}

/// Whether a kind is described, and declares no more inputs and no more
/// outputs than there are port ids for.
pub open spec fn described<B: ExecutionBlock>(kind: B) -> bool {
    &&& kind.modelled()
    &&& kind.inputs().len() <= MAX_PORTS
    &&& kind.outputs().len() <= MAX_PORTS
}

/// Whether every kind of a catalog is described.
pub open spec fn all_described<B: ExecutionBlock>(kinds: Seq<B>) -> bool {
    forall|i: int| 0 <= i < kinds.len() ==> described(#[trigger] kinds[i])
}

/// Whether a kind is described and keeps to the rule for handlers: where its
/// handler succeeds on an input that it accepts, it returns one value for
/// each declared output, of the declared type, under the port of that
/// output.
pub open spec fn lawful<B: ExecutionBlock>(kind: B) -> bool {
    &&& described(kind)
    &&& forall|input: Seq<RegisterView>, block_id: u32|
        accepts(kind.inputs(), input) ==> (#[trigger] kind.outcome(input, block_id) matches Ok(
            out,
        ) ==> well_formed(kind.outputs(), block_id, out.registers))
}

/// Whether every kind of a catalog is described and keeps to the rule for
/// handlers.
pub open spec fn all_lawful<B: ExecutionBlock>(kinds: Seq<B>) -> bool {
    forall|i: int| 0 <= i < kinds.len() ==> lawful(#[trigger] kinds[i])
}

/// The condition that a kind has the id `id`.
pub open spec fn is_kind<B: ExecutionBlock>(id: u32) -> spec_fn(B) -> bool {
    |b: B| b.id() == id
}

/// The condition that a kind is of the category `category`.
pub open spec fn is_of<B: ExecutionBlock>(category: ExecutionBlockType) -> spec_fn(B) -> bool {
    |b: B| b.category() == category
}

/// The condition that a value stands for the connection type `name`.
pub open spec fn is_named(name: Seq<char>) -> spec_fn(ValueView) -> bool {
    |t: ValueView| t.name() == name
}

/// The first kind of `kinds` with the id `id`.
pub open spec fn find_kind<B: ExecutionBlock>(kinds: Seq<B>, id: u32) -> Option<B> {
    first_match(kinds, is_kind::<B>(id))
}

/// The first type of `types` with the name `name`.
pub open spec fn find_type(types: Seq<ValueView>, name: Seq<char>) -> Option<ValueView> {
    first_match(types, is_named(name))
}

/// The views of the values in `values`, in order.
pub open spec fn values_view(values: Seq<ExecutionType>) -> Seq<ValueView> {
    Seq::new(values.len(), |i: int| values[i]@)
}

/// The value that the literal `json` stands for on a port of the type `name`,
/// or the error that the type is not registered.
pub open spec fn lift_literal(types: Seq<ValueView>, name: Seq<char>, json: crate::json::JsonView)
    -> Result<ValueView, crate::error::ErrorView> {
    match find_type(types, name) {
        Some(t) => Ok(t.lift(json)),
        None => Err(
            crate::error::ErrorView::TypeUnknown(crate::error::TypeRefView::Connection(name)),
        ),
    }
}

/// The kinds of blocks and the connection types that programs may use.
pub struct Logic<B: ExecutionBlock> {
    pub blocks: Vec<B>,
    pub types: Vec<ExecutionType>,
}

impl<B: ExecutionBlock> Logic<B> {
    /// The registered connection types, each by the value that stands for it.
    pub open spec fn types_view(&self) -> Seq<ValueView> {
        values_view(self.types@)
    }

    /// The connection types of a new catalog: `Execution`, `String`,
    /// `Integer` and `Float`.
    pub open spec fn empty_types() -> Seq<ValueView> {
        seq![
            ValueView::Execution,
            ValueView::String(Seq::empty()),
            ValueView::Integer(0),
            ValueView::Float("0.0"@),
        ]
    }

    /// A catalog without block kinds, with the four connection types
    /// `Execution`, `String`, `Integer` and `Float`.
    pub fn empty() -> (r: Logic<B>)
        ensures
            r.blocks@ == Seq::<B>::empty(),
            r.types_view() == Self::empty_types(),
            well_named(r.types_view()),
    {
        let mut types: Vec<ExecutionType> = Vec::new();
        types.push(ExecutionType::Execution);
        types.push(ExecutionType::String(String::new()));
        types.push(ExecutionType::Integer(0));
        types.push(ExecutionType::Float("0.0".to_owned()));
        let r = Logic { blocks: Vec::new(), types };
        assert(r.types_view() =~= Self::empty_types());
        r
    }

    /// Registers a kind of block, behind those already registered.
    pub fn add_block(&mut self, block: B)
        ensures
            final(self).blocks@ == old(self).blocks@.push(block),
            final(self).types == old(self).types,
    {
        self.blocks.push(block);
    }

    /// The first registered kind with the id `id`.
    pub fn get_block(&self, id: u32) -> (r: Option<&B>)
        ensures
            all_described(self.blocks@) ==> match r {
                Some(block) => find_kind(self.blocks@, id) == Some(*block),
                None => find_kind(self.blocks@, id) is None,
            },
            r matches Some(block) ==> self.blocks@.contains(*block),
    {
        let mut i: usize = 0;
        while i < self.blocks.len()
            invariant
                i <= self.blocks@.len(),
                all_described(self.blocks@) ==> forall|j: int|
                    0 <= j < i ==> self.blocks@[j].id() != id,
            decreases self.blocks@.len() - i,
        {
            if self.blocks[i].get_id() == id {
                proof {
                    if all_described(self.blocks@) {
                        lemma_first_index_is(self.blocks@, is_kind::<B>(id), i as int);
                    }
                }
                return Some(&self.blocks[i]);
            }
            i += 1;
        }
        proof {
            if all_described(self.blocks@) {
                lemma_first_index_none(self.blocks@, is_kind::<B>(id));
            }
        }
        None
    }

    /// The registered kinds of the category `typ`, in the order in which they
    /// were registered.
    pub fn get_blocks_by_type(&self, typ: ExecutionBlockType) -> (r: Vec<&B>)
        ensures
            all_described(self.blocks@) ==> r@.map_values(|b: &B| *b) == self.blocks@.filter(
                is_of::<B>(typ),
            ),
    {
        let mut out: Vec<&B> = Vec::new();
        let mut i: usize = 0;
        assert(self.blocks@.take(0) =~= Seq::<B>::empty());
        while i < self.blocks.len()
            invariant
                i <= self.blocks@.len(),
                all_described(self.blocks@) ==> out@.map_values(|b: &B| *b) == self.blocks@.take(
                    i as int,
                ).filter(is_of::<B>(typ)),
            decreases self.blocks@.len() - i,
        {
            let ghost before = out@.map_values(|b: &B| *b);
            proof {
                let more = self.blocks@.take(i as int + 1);
                reveal(Seq::filter);
                assert(more.drop_last() =~= self.blocks@.take(i as int));
                assert(more.last() == self.blocks@[i as int]);
            }
            if self.blocks[i].get_type() == typ {
                out.push(&self.blocks[i]);
                assert(out@.map_values(|b: &B| *b) =~= before.push(self.blocks@[i as int]));
            }
            i += 1;
        }
        assert(self.blocks@.take(i as int) =~= self.blocks@);
        out
    }

    /// Whether no registered type that a host has added is named like one of
    /// the engine's own.
    pub fn is_well_named(&self) -> (r: bool)
        ensures
            r == well_named(self.types_view()),
    {
        let ghost types = self.types_view();
        let mut i: usize = 0;
        while i < self.types.len()
            invariant
                i <= self.types@.len(),
                types == self.types_view(),
                forall|j: int| 0 <= j < i ==> (#[trigger] types[j]).well_named(),
            decreases self.types@.len() - i,
        {
            assert(types[i as int] == self.types@[i as int]@);
            if !self.types[i].is_well_named() {
                return false;
            }
            i += 1;
        }
        true
    }

    /// Registers a connection type, by a value that stands for it.
    pub fn add_connection_type(&mut self, typ: ExecutionType)
        ensures
            final(self).types_view() == old(self).types_view().push(typ@),
            final(self).blocks == old(self).blocks,
    {
        self.types.push(typ);
        assert(self.types_view() =~= old(self).types_view().push(typ@));
    }

    /// Whether a connection type of the name `typ` is registered.
    pub fn has_type(&self, typ: &str) -> (r: bool)
        ensures
            r == find_type(self.types_view(), typ@) is Some,
    {
        let ghost types = self.types_view();
        let mut i: usize = 0;
        while i < self.types.len()
            invariant
                i <= self.types@.len(),
                types == self.types_view(),
                forall|j: int| 0 <= j < i ==> types[j].name() != typ@,
            decreases self.types@.len() - i,
        {
            let name = self.types[i].get_name();
            if same_text(name.as_str(), typ) {
                proof {
                    assert(types[i as int] == self.types@[i as int]@);
                    lemma_first_index_is(types, is_named(typ@), i as int);
                }
                return true;
            }
            i += 1;
        }
        proof {
            lemma_first_index_none(types, is_named(typ@));
        }
        false
    }

    /// The value that the literal `json` stands for on a port of the type
    /// `typ`. Fails where no type of that name is registered.
    pub fn type_from_json(&self, typ: &str, json: &Json) -> (r: Result<ExecutionType, Error>)
        ensures
            match r {
                Ok(value) => lift_literal(self.types_view(), typ@, json@) == Ok::<
                    ValueView,
                    crate::error::ErrorView,
                >(value@),
                Err(e) => lift_literal(self.types_view(), typ@, json@) == Err::<
                    ValueView,
                    crate::error::ErrorView,
                >(e@),
            },
    {
        let ghost types = self.types_view();
        let mut i: usize = 0;
        while i < self.types.len()
            invariant
                i <= self.types@.len(),
                types == self.types_view(),
                forall|j: int| 0 <= j < i ==> types[j].name() != typ@,
            decreases self.types@.len() - i,
        {
            let name = self.types[i].get_name();
            if same_text(name.as_str(), typ) {
                proof {
                    assert(types[i as int] == self.types@[i as int]@);
                    lemma_first_index_is(types, is_named(typ@), i as int);
                }
                return Ok(self.types[i].from_json(json));
            }
            i += 1;
        }
        proof {
            lemma_first_index_none(types, is_named(typ@));
        }
        Err(Error::TypeUnknown(TypeRef::Connection(typ.to_owned())))
    }
}

/// Whether no type of `types` that a host has added is named like one of the
/// engine's own.
pub open spec fn well_named(types: Seq<ValueView>) -> bool {
    forall|i: int| 0 <= i < types.len() ==> (#[trigger] types[i]).well_named()
}

/// A value of a registered type survives the way through its JSON literal
/// and back, on a port of the type of its name: the type that is found
/// under the name of the value's type is the value's type.
pub proof fn lemma_literal_round_trip(types: Seq<ValueView>, value: ValueView)
    requires
        find_type(types, value.name()) matches Some(t) && t.same_type(value),
    ensures
        lift_literal(types, value.name(), value.to_json()) == Ok::<
            ValueView,
            crate::error::ErrorView,
        >(value),
{
    crate::types::lemma_value_round_trip(find_type(types, value.name())->0, value);
}

/// A value of a type of the engine's own survives the way through its JSON
/// literal and back, on a port of the type of its name, in every catalog
/// that has that type and in which no type that a host has added is named
/// like one of the engine's own.
pub proof fn lemma_own_literal_round_trip(types: Seq<ValueView>, value: ValueView)
    requires
        well_named(types),
        !(value is Other),
        find_type(types, value.name()) is Some,
    ensures
        lift_literal(types, value.name(), value.to_json()) == Ok::<
            ValueView,
            crate::error::ErrorView,
        >(value),
{
    crate::search::lemma_first_index(types, is_named(value.name()));
    let found = find_type(types, value.name())->0;
    crate::types::lemma_same_type_by_name(found, value);
    lemma_literal_round_trip(types, value);
}

} // verus!

//! The engine as its users see it: a catalog, the text of a program, and
//! the register and the printed lines of the last run.

use crate::block::{blocks_view, Block, BlockView};
use crate::error::{Error, ErrorView, Reason};
use crate::evaluate::{execute_block, max_steps, run, type_at, type_text, RunView, World};
use crate::json::{parse, parsed};
use crate::logic::{all_described, find_kind, output_port, ExecutionBlock, Logic, MAX_PORTS};
use crate::register::{file_under, registers_view, write_all, Register, RegisterFile, RegisterView};
use crate::search::{first_match, lemma_first_index};
use crate::text::{same_text, texts_view};
use crate::types::{ExecutionType, ValueView};
use crate::validate::{block_fault, fault, find_fault, find_start_block, is_faulty, is_start};
use crate::wire::{decode, decode_program};
use vstd::prelude::*;

verus! {

/// What reading makes of the text of a program: the program, or the error
/// that the text is no JSON or has not the shape of a program.
pub open spec fn read(text: Seq<char>) -> Result<Seq<BlockView>, ErrorView> {
    match parsed(text) {
        Err(at) => Err(ErrorView::GraphInvalid(Reason::Syntax { line: at.0, column: at.1 })),
        Ok(json) => match decode_program(json) {
            None => Err(ErrorView::GraphInvalid(Reason::Shape)),
            Some(graph) => Ok(graph),
        },
    }
}

/// What loading makes of the text of a program, for a catalog: the program,
/// if the text can be read and the program may run.
pub open spec fn load<B: ExecutionBlock>(
    kinds: Seq<B>,
    types: Seq<ValueView>,
    text: Seq<char>,
) -> Result<Seq<BlockView>, ErrorView> {
    match read(text) {
        Err(e) => Err(e),
        Ok(graph) => match fault(World { kinds, types, graph }) {
            Some(e) => Err(e),
            None => Ok(graph),
        },
    }
}

/// The first position below `upto` at which a seed value is not of the type
/// of the start kind's output at that position.
pub open spec fn first_unfit(declared: Seq<Seq<char>>, seed: Seq<ValueView>, upto: nat) -> Option<
    int,
>
    decreases upto,
{
    if upto == 0 || upto > seed.len() {
        None
    } else {
        match first_unfit(declared, seed, (upto - 1) as nat) {
            Some(i) => Some(i),
            None => if type_at(declared, upto - 1) != Some(seed[upto - 1].name()) {
                Some(upto - 1)
            } else {
                None
            },
        }
    }
}

/// The seed values as register entries of the start block `block_id`: the
/// value at position `i` under the port of the `i`-th output.
pub open spec fn seed_entries(block_id: u32, seed: Seq<ValueView>) -> Seq<RegisterView> {
    Seq::new(
        seed.len(),
        |i: int| RegisterView { block_id: block_id, node_id: output_port(i) as u32, value: seed[i] },
    )
}

/// The run of a program that may run, on the seed values `seed`.
///
/// It starts at the first block of a start kind, with a register that holds
/// the seed values under the outputs of that block, and nothing else. A
/// program without a start block does not run. Neither does one whose seed
/// holds a value that is not of the type of the start kind's output at its
/// position.
pub open spec fn execution<B: ExecutionBlock>(world: World<B>, seed: Seq<ValueView>) -> RunView {
    match first_match(world.graph, is_start(world.kinds)) {
        None => RunView { error: Some(ErrorView::NoStart), register: Map::empty(), lines: Seq::empty() },
        Some(start) => {
            let declared = find_kind(world.kinds, start.block_type_id)->0.outputs();
            match first_unfit(declared, seed, seed.len()) {
                Some(i) => RunView {
                    error: Some(
                        ErrorView::TypeMismatch(type_text(type_at(declared, i)), seed[i].name()),
                    ),
                    register: Map::empty(),
                    lines: Seq::empty(),
                },
                None => run(
                    world,
                    write_all(Map::empty(), seed_entries(start.block_id, seed)),
                    Seq::empty(),
                    start.block_id,
                    max_steps(world.graph.len()),
                ),
            }
        },
    }
}

/// The view of the error of a run that may have ended well.
pub open spec fn ended_view(r: Result<(), Error>) -> Option<ErrorView> {
    match r {
        Ok(_) => None,
        Err(e) => Some(e@),
    }
}

/// A seed value that does not fit among the first is the first that does
/// not fit in every longer run.
pub proof fn lemma_first_unfit_stays(
    declared: Seq<Seq<char>>,
    seed: Seq<ValueView>,
    found: nat,
    upto: nat,
)
    requires
        found <= upto <= seed.len(),
        first_unfit(declared, seed, found) is Some,
    ensures
        first_unfit(declared, seed, upto) == first_unfit(declared, seed, found),
    decreases upto,
{
    if found < upto {
        lemma_first_unfit_stays(declared, seed, found, (upto - 1) as nat);
    }
}

/// In a program that may run, nothing is wrong with any block.
pub proof fn lemma_valid_blocks<B: ExecutionBlock>(world: World<B>, at: int)
    requires
        fault(world) is None,
        0 <= at < world.graph.len(),
    ensures
        block_fault(world, world.graph[at]) is None,
{
    lemma_first_index(world.graph, is_faulty(world));
}

/// The text of a program, and the program as it was read from that text.
pub struct Program {
    raw_code: String,
    code: Vec<Block>,
    code_ok: bool,
}

impl Program {
    /// The program that is held is the one that its text describes, and no
    /// program is held before the text has been read.
    #[verifier::type_invariant]
    closed spec fn wf(&self) -> bool {
        &&& self.code_ok ==> read(self.raw_code@) == Ok::<Seq<BlockView>, ErrorView>(
            blocks_view(self.code@),
        )
        &&& !self.code_ok ==> self.code@.len() == 0
    }

    /// Whether the program that is held is the one that its text describes,
    /// and none is held where the text has not been read.
    pub open spec fn held(&self) -> bool {
        &&& self.analyzed() ==> read(self.raw_code()) == Ok::<Seq<BlockView>, ErrorView>(
            self.graph(),
        )
        &&& !self.analyzed() ==> self.graph() == Seq::<BlockView>::empty()
    }

    /// The text of the program.
    pub closed spec fn raw_code(&self) -> Seq<char> {
        self.raw_code@
    }

    /// The program as it was read.
    pub closed spec fn graph(&self) -> Seq<BlockView> {
        blocks_view(self.code@)
    }

    /// Whether the program has been read from its present text.
    pub closed spec fn analyzed(&self) -> bool {
        self.code_ok
    }

    /// A program of the text `code`, not read yet.
    pub fn new(code: String) -> (r: Program)
        ensures
            r.raw_code() == code@,
            !r.analyzed(),
            r.held(),
    {
        let r = Program { raw_code: code, code: Vec::new(), code_ok: false };
        assert(r.graph() =~= Seq::<BlockView>::empty());
        r
    }

    /// Replaces the text. What was read of the old text is forgotten.
    pub fn set_code(&mut self, code: String)
        ensures
            final(self).raw_code() == code@,
            !final(self).analyzed(),
            final(self).held(),
    {
        *self = Program { raw_code: code, code: Vec::new(), code_ok: false };
        assert(self.graph() =~= Seq::<BlockView>::empty());
    }

    /// Forgets the program that was read. The text stays.
    pub fn forget(&mut self)
        ensures
            final(self).raw_code() == old(self).raw_code(),
            !final(self).analyzed(),
            final(self).held(),
    {
        let raw_code = self.raw_code.clone();
        *self = Program { raw_code, code: Vec::new(), code_ok: false };
        assert(self.graph() =~= Seq::<BlockView>::empty());
    }

    /// Reads the program from its text, unless that has been done. A text
    /// that cannot be read leaves no program.
    pub fn read(&mut self) -> (r: Result<(), Error>)
        ensures
            final(self).raw_code() == old(self).raw_code(),
            final(self).held(),
            match r {
                Ok(_) => final(self).analyzed() && read(old(self).raw_code()) == Ok::<
                    Seq<BlockView>,
                    ErrorView,
                >(final(self).graph()),
                Err(e) => !final(self).analyzed() && read(old(self).raw_code()) == Err::<
                    Seq<BlockView>,
                    ErrorView,
                >(e@),
            },
    {
        proof {
            use_type_invariant(&*self);
            assert(!self.code_ok ==> self.graph() =~= Seq::<BlockView>::empty());
        }
        if self.code_ok {
            return Ok(());
        }
        let json = match parse(self.raw_code.as_str()) {
            Ok(json) => json,
            Err(e) => {
                return Err(e);
            },
        };
        match decode(&json) {
            Ok(code) => {
                let raw_code = self.raw_code.clone();
                *self = Program { raw_code, code, code_ok: true };
                Ok(())
            },
            Err(e) => Err(e),
        }
    }

    /// The blocks of the program as it was read.
    pub fn blocks(&self) -> (r: &Vec<Block>)
        ensures
            blocks_view(r@) == self.graph(),
    {
        &self.code
    }
}

/// A catalog, a program, and the state of its last run.
pub struct Executer<B: ExecutionBlock> {
    logic: Logic<B>,
    program: Program,
    register: RegisterFile,
    console: Vec<String>,
}

impl<B: ExecutionBlock> Executer<B> {
    /// The catalog.
    pub closed spec fn catalog(&self) -> Logic<B> {
        self.logic
    }

    /// The text of the program.
    pub closed spec fn raw_code(&self) -> Seq<char> {
        self.program.raw_code()
    }

    /// The program that is held, without blocks where none is held.
    pub closed spec fn graph(&self) -> Seq<BlockView> {
        self.program.graph()
    }

    /// Whether a program is held: one that was read from the present text and
    /// was not refused.
    pub closed spec fn analyzed(&self) -> bool {
        self.program.analyzed()
    }

    /// Whether the program that is held is the one that its text describes,
    /// and none is held where the text has not been read or the program was
    /// refused.
    pub open spec fn held(&self) -> bool {
        &&& self.analyzed() ==> read(self.raw_code()) == Ok::<Seq<BlockView>, ErrorView>(
            self.graph(),
        )
        &&& !self.analyzed() ==> self.graph() == Seq::<BlockView>::empty()
    }

    /// The register of the last run.
    pub closed spec fn register(&self) -> Map<(u32, u32), ValueView> {
        self.register@
    }

    /// The lines that the last run printed.
    pub closed spec fn console(&self) -> Seq<Seq<char>> {
        texts_view(self.console@)
    }

    /// The world of the catalog and the program.
    pub open spec fn world(&self) -> World<B> {
        World {
            kinds: self.catalog().blocks@,
            types: self.catalog().types_view(),
            graph: self.graph(),
        }
    }

    /// An engine for the catalog `logic` and the program text `code`.
    pub fn new(logic: Logic<B>, code: String) -> (r: Executer<B>)
        ensures
            r.catalog() == logic,
            r.raw_code() == code@,
            !r.analyzed(),
            r.held(),
            r.register() == Map::<(u32, u32), ValueView>::empty(),
            r.console() == Seq::<Seq<char>>::empty(),
    {
        let r = Executer {
            logic,
            program: Program::new(code),
            register: RegisterFile::new(),
            console: Vec::new(),
        };
        assert(r.console() =~= Seq::<Seq<char>>::empty());
        r
    }

    /// Replaces the text of the program. What was read of the old text is
    /// forgotten.
    pub fn set_code(&mut self, code: String)
        ensures
            final(self).catalog() == old(self).catalog(),
            final(self).raw_code() == code@,
            !final(self).analyzed(),
            final(self).held(),
            final(self).register() == old(self).register(),
            final(self).console() == old(self).console(),
    {
        self.program.set_code(code);
    }

    /// Loads the program: reads it from its text and makes sure that it may run
    /// with the catalog. A program that is refused is not kept.
    pub fn analyze(&mut self) -> (r: Result<(), Error>)
        ensures
            final(self).catalog() == old(self).catalog(),
            final(self).raw_code() == old(self).raw_code(),
            final(self).register() == old(self).register(),
            final(self).console() == old(self).console(),
            final(self).held(),
            final(self).analyzed() == (r is Ok),
            read(old(self).raw_code()) matches Err(e) ==> ended_view(r) == Some(e),
            all_described(old(self).catalog().blocks@) ==> match r {
                Ok(_) => load(
                    old(self).catalog().blocks@,
                    old(self).catalog().types_view(),
                    old(self).raw_code(),
                ) == Ok::<Seq<BlockView>, ErrorView>(final(self).graph()),
                Err(e) => load(
                    old(self).catalog().blocks@,
                    old(self).catalog().types_view(),
                    old(self).raw_code(),
                ) == Err::<Seq<BlockView>, ErrorView>(e@),
            },
    {
        match self.program.read() {
            Err(e) => {
                return Err(e);
            },
            Ok(_) => {},
        }
        match find_fault(&self.logic, self.program.blocks()) {
            Some(e) => {
                self.program.forget();
                Err(e)
            },
            None => Ok(()),
        }
    }

    /// What `execute` does to an engine: `before` is the engine as it was,
    /// `after` as it is left, and `ended` the error that was returned, if
    /// one was. Of a catalog with a kind that is not described it says that
    /// the catalog and the text of the program stay, that a text which
    /// cannot be read is refused with the register and the lines as they
    /// were, and that a program is held exactly if it was not refused.
    pub open spec fn executed(
        before: Self,
        seed: Seq<ValueView>,
        after: Self,
        ended: Option<ErrorView>,
    ) -> bool {
        &&& after.catalog() == before.catalog()
        &&& after.raw_code() == before.raw_code()
        &&& after.held()
        &&& ended is None ==> after.analyzed()
        &&& read(before.raw_code()) matches Err(e) ==> {
            &&& ended == Some(e)
            &&& after.register() == before.register()
            &&& after.console() == before.console()
        }
        &&& all_described(before.catalog().blocks@) ==> match load(
            before.catalog().blocks@,
            before.catalog().types_view(),
            before.raw_code(),
        ) {
            Err(e) => {
                &&& ended == Some(e)
                &&& !after.analyzed()
                &&& after.register() == before.register()
                &&& after.console() == before.console()
            },
            Ok(graph) => {
                let end = execution(after.world(), seed);
                &&& after.graph() == graph
                &&& after.analyzed()
                &&& ended == end.error
                &&& after.register() == end.register
                &&& after.console() == end.lines
            },
        }
    }

    /// Two runs of one program with one catalog on one seed end in the same
    /// way, and leave the same register and the same printed lines,
    /// whatever the two engines held before.
    pub proof fn lemma_execute_repeats(
        first_before: Self,
        first_after: Self,
        first_ended: Option<ErrorView>,
        second_before: Self,
        second_after: Self,
        second_ended: Option<ErrorView>,
        seed: Seq<ValueView>,
    )
        requires
            all_described(first_before.catalog().blocks@),
            Self::executed(first_before, seed, first_after, first_ended),
            Self::executed(second_before, seed, second_after, second_ended),
            first_before.catalog().blocks@ == second_before.catalog().blocks@,
            first_before.catalog().types_view() == second_before.catalog().types_view(),
            first_before.raw_code() == second_before.raw_code(),
            load(
                first_before.catalog().blocks@,
                first_before.catalog().types_view(),
                first_before.raw_code(),
            ) is Ok,
        ensures
            first_ended == second_ended,
            first_after.register() == second_after.register(),
            first_after.console() == second_after.console(),
    {
        assert(first_after.world() == second_after.world());
    }

    /// Runs the program on the seed values `inputs`: the values of the
    /// outputs of the start block, in the order in which its kind declares
    /// them.
    ///
    /// A program that cannot be loaded is not run, and the register and the
    /// printed lines stay as they were. Otherwise both are emptied, and the
    /// run leaves in them what it has written and printed, also where it
    /// fails.
    #[verifier::loop_isolation(false)]
    pub fn execute(&mut self, inputs: Vec<ExecutionType>) -> (r: Result<(), Error>)
        ensures
            Self::executed(
                *old(self),
                crate::logic::values_view(inputs@),
                *final(self),
                ended_view(r),
            ),
    {
        match self.program.read() {
            Err(e) => {
                return Err(e);
            },
            Ok(_) => {},
        }
        match find_fault(&self.logic, self.program.blocks()) {
            Some(e) => {
                self.program.forget();
                return Err(e);
            },
            None => {},
        }
        let ghost world = self.world();
        let ghost described = all_described(self.logic.blocks@);
        let ghost seed = crate::logic::values_view(inputs@);
        self.register.clear();
        self.console.clear();
        assert(self.console() =~= Seq::<Seq<char>>::empty());
        let code = self.program.blocks();
        let (at, block_id, block_type_id) = match find_start_block(&self.logic, code) {
            Some(found) => found,
            None => {
                return Err(Error::NoStart);
            },
        };
        assert(world.graph[at as int] == code@[at as int]@);
        let kind = match self.logic.get_block(block_type_id) {
            Some(kind) => kind,
            None => {
                return Err(Error::NoStart);
            },
        };
        let declared = kind.get_outputs();
        let ghost wanted = kind.outputs();
        let ghost all = seed_entries(block_id, seed);
        let mut entries: Vec<Register> = Vec::new();
        let mut i: usize = 0;
        while i < inputs.len()
            invariant
                i <= inputs@.len(),
                entries@.len() == i,
                described ==> first_unfit(wanted, seed, i as nat) is None,
                described ==> i <= wanted.len(),
                i <= MAX_PORTS,
                forall|j: int| 0 <= j < i ==> entries@[j]@ == all[j],
            decreases inputs@.len() - i,
        {
            let name = inputs[i].get_name();
            assert(seed[i as int] == inputs@[i as int]@);
            if i >= declared.len() || i >= MAX_PORTS {
                proof {
                    if described {
                        lemma_first_unfit_stays(wanted, seed, (i + 1) as nat, seed.len());
                    }
                }
                return Err(Error::TypeMismatch(String::new(), name));
            }
            assert(described ==> wanted[i as int] == declared@[i as int]@);
            if !same_text(declared[i].as_str(), name.as_str()) {
                proof {
                    if described {
                        lemma_first_unfit_stays(wanted, seed, (i + 1) as nat, seed.len());
                    }
                }
                return Err(Error::TypeMismatch(declared[i].clone(), name));
            }
            let port: u32 = (3 + 2 * (i as u64)) as u32;
            entries.push(Register { block_id, node_id: port, value: inputs[i].duplicate() });
            i += 1;
        }
        assert(file_under(block_id, registers_view(entries@)) =~= all);
        self.register.insert_all(block_id, entries);
        execute_block(
            &self.logic,
            self.program.blocks(),
            &mut self.register,
            &mut self.console,
            block_id,
        )
    }

    /// The blocks of the program as it was read.
    pub fn get_code(&self) -> (r: &Vec<Block>)
        ensures
            blocks_view(r@) == self.graph(),
    {
        self.program.blocks()
    }

    /// The catalog.
    pub fn get_logic(&self) -> (r: &Logic<B>)
        ensures
            *r == self.catalog(),
    {
        &self.logic
    }

    /// A copy of the value that the register holds for a port.
    pub fn get(&self, block_id: u32, node_id: u32) -> (r: Option<ExecutionType>)
        ensures
            match r {
                Some(value) => self.register().contains_key((block_id, node_id))
                    && self.register()[(block_id, node_id)] == value@,
                None => !self.register().contains_key((block_id, node_id)),
            },
    {
        self.register.get(block_id, node_id)
    }

    /// A copy of the lines that the last run printed, in order.
    pub fn lines(&self) -> (r: Vec<String>)
        ensures
            texts_view(r@) == self.console(),
    {
        crate::text::copy_texts(&self.console)
    }
}

} // verus!

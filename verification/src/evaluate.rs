//! The evaluator: how the inputs of a block are gathered, how its handler is
//! called, and how execution goes from block to block.

use crate::block::{blocks_view, find_block, get_block, Block, BlockView, Node, NodeView};
use crate::error::{Error, ErrorView, Reason, TypeRef, TypeRefView};
use crate::logic::{
    accepts, all_described, find_kind, lift_literal, ExecutionBlock, ExecutionBlockType, Logic,
    Output, OutputView,
};
use crate::register::{
    file_under, registers_view, write_all, Register, RegisterFile, RegisterView,
};
use crate::search::{first_match, lemma_first_index_is, lemma_first_index_none};
use crate::text::{same_text, texts_view};
use crate::types::ValueView;
use vstd::prelude::*;

verus! {

/// How deep static blocks may feed each other.
pub const MAX_DEPTH: u32 = 1024;

/// What a run works on: the catalog and the program.
pub struct World<B: ExecutionBlock> {
    pub kinds: Seq<B>,
    pub types: Seq<ValueView>,
    pub graph: Seq<BlockView>,
}

/// The world of a catalog and a program.
pub open spec fn world_of<B: ExecutionBlock>(logic: &Logic<B>, code: &Vec<Block>) -> World<B> {
    World { kinds: logic.blocks@, types: logic.types_view(), graph: blocks_view(code@) }
}

/// The view of what gathering or evaluating returned.
pub open spec fn pulled_view(r: Result<Output, Error>) -> Result<OutputView, ErrorView> {
    match r {
        Ok(out) => Ok(out@),
        Err(e) => Err(e@),
    }
}

/// The condition that a register entry is filed under the port `node_id`.
pub open spec fn at_port(node_id: u32) -> spec_fn(RegisterView) -> bool {
    |r: RegisterView| r.node_id == node_id
}

/// The type of the `i`-th value, if there are that many.
pub open spec fn type_at(names: Seq<Seq<char>>, i: int) -> Option<Seq<char>> {
    if 0 <= i < names.len() {
        Some(names[i])
    } else {
        None
    }
}

/// The names of the types of the values in `input`.
pub open spec fn type_names(input: Seq<RegisterView>) -> Seq<Seq<char>> {
    Seq::new(input.len(), |i: int| input[i].value.name())
}

/// The first position at which the declared types and the types found
/// differ, one of the two being absent where the other has more.
pub open spec fn mismatch_from(declared: Seq<Seq<char>>, found: Seq<Seq<char>>, from: int) -> Option<
    int,
>
    decreases declared.len() + found.len() - from,
{
    if from < 0 || (from >= declared.len() && from >= found.len()) {
        None
    } else if type_at(declared, from) != type_at(found, from) {
        Some(from)
    } else {
        mismatch_from(declared, found, from + 1)
    }
}

/// The text of a type that may be absent.
pub open spec fn type_text(name: Option<Seq<char>>) -> Seq<char> {
    match name {
        Some(text) => text,
        None => Seq::empty(),
    }
}

/// What the handler of `block` returns for the gathered `input`, behind the
/// lines that gathering produced. A start block is not run and returns
/// nothing. A handler is not run on an input that it does not declare.
pub open spec fn dispatch<B: ExecutionBlock>(world: World<B>, block: BlockView, input: OutputView)
    -> Result<OutputView, ErrorView> {
    match find_kind(world.kinds, block.block_type_id) {
        None => Err(ErrorView::TypeUnknown(TypeRefView::Block(block.block_type_id))),
        Some(kind) => if kind.category() == ExecutionBlockType::Start {
            Ok(OutputView { registers: Seq::empty(), lines: input.lines })
        } else {
            match mismatch_from(kind.inputs(), type_names(input.registers), 0) {
                Some(i) => Err(
                    ErrorView::TypeMismatch(
                        type_text(type_at(kind.inputs(), i)),
                        type_text(type_at(type_names(input.registers), i)),
                    ),
                ),
                None => match kind.outcome(input.registers, block.block_id) {
                    Err(cause) => Err(ErrorView::BlockFailed(block.block_id, cause)),
                    Ok(out) => Ok(
                        OutputView { registers: out.registers, lines: input.lines + out.lines },
                    ),
                },
            }
        },
    }
}

/// What evaluating the block `block_id` returns: the outputs of its handler
/// on the inputs gathered for it, and the lines produced on the way.
pub open spec fn pull<B: ExecutionBlock>(
    world: World<B>,
    register: Map<(u32, u32), ValueView>,
    block_id: u32,
    depth: nat,
) -> Result<OutputView, ErrorView>
    decreases depth, 0nat, 0nat,
{
    if depth == 0 {
        Err(ErrorView::DepthExceeded)
    } else {
        match find_block(world.graph, block_id) {
            None => Err(ErrorView::MissingBlock(block_id)),
            Some(block) => match gather(
                world,
                register,
                block,
                block.nodes.len(),
                (depth - 1) as nat,
            ) {
                Err(e) => Err(e),
                Ok(input) => dispatch(world, block, input),
            },
        }
    }
}

/// The values for the data inputs among the first `upto` ports of `block`,
/// in the order of the ports, and the lines produced on the way.
pub open spec fn gather<B: ExecutionBlock>(
    world: World<B>,
    register: Map<(u32, u32), ValueView>,
    block: BlockView,
    upto: nat,
    depth: nat,
) -> Result<OutputView, ErrorView>
    decreases depth, 2nat, upto,
{
    if upto == 0 || upto > block.nodes.len() {
        Ok(OutputView { registers: Seq::empty(), lines: Seq::empty() })
    } else {
        match gather(world, register, block, (upto - 1) as nat, depth) {
            Err(e) => Err(e),
            Ok(before) => {
                let node = block.nodes[upto - 1];
                if !node.is_data_input() {
                    Ok(before)
                } else {
                    match resolve(world, register, block.block_id, node, depth) {
                        Err(e) => Err(e),
                        Ok(found) => Ok(
                            OutputView {
                                registers: before.registers.push(found.0),
                                lines: before.lines + found.1,
                            },
                        ),
                    }
                }
            },
        }
    }
}

/// The value for one data input, and the lines produced on the way.
///
/// Where an edge ends at the port, the value comes from the block at its
/// other end: from the register if that block is of a start or normal kind,
/// and from evaluating the block if it is of a static kind. Where no edge
/// ends at the port, the value is the port's literal.
pub open spec fn resolve<B: ExecutionBlock>(
    world: World<B>,
    register: Map<(u32, u32), ValueView>,
    block_id: u32,
    node: NodeView,
    depth: nat,
) -> Result<(RegisterView, Seq<Seq<char>>), ErrorView>
    decreases depth, 1nat, 0nat,
{
    match node.edge() {
        Some(edge) => match find_kind(world.kinds, edge.block_type_id) {
            None => Err(ErrorView::TypeUnknown(TypeRefView::Block(edge.block_type_id))),
            Some(kind) => if kind.category() == ExecutionBlockType::Static {
                match pull(world, register, edge.block_id, depth) {
                    Err(e) => Err(e),
                    Ok(out) => match first_match(out.registers, at_port(edge.node_id)) {
                        None => Err(ErrorView::MissingOutput(edge.node_id)),
                        Some(found) => Ok((found, out.lines)),
                    },
                }
            } else {
                if register.contains_key((edge.block_id, edge.node_id)) {
                    Ok(
                        (
                            RegisterView {
                                block_id: edge.block_id,
                                node_id: edge.node_id,
                                value: register[(edge.block_id, edge.node_id)],
                            },
                            Seq::empty(),
                        ),
                    )
                } else {
                    Err(ErrorView::RegisterMiss(edge.block_id, edge.node_id))
                }
            },
        },
        None => match lift_literal(world.types, node.connection_type, node.value) {
            Err(e) => Err(e),
            Ok(value) => Ok(
                (RegisterView { block_id: block_id, node_id: node.id, value: value }, Seq::empty()),
            ),
        },
    }
}

/// The view of what resolving one input returned.
pub open spec fn resolved_view(r: Result<(Register, Vec<String>), Error>) -> Result<
    (RegisterView, Seq<Seq<char>>),
    ErrorView,
> {
    match r {
        Ok(found) => Ok((found.0@, texts_view(found.1@))),
        Err(e) => Err(e@),
    }
}

/// Once gathering has failed at a port, it fails in the same way for every
/// longer run of ports.
pub proof fn lemma_gather_fails<B: ExecutionBlock>(
    world: World<B>,
    register: Map<(u32, u32), ValueView>,
    block: BlockView,
    failed: nat,
    upto: nat,
    depth: nat,
)
    requires
        failed <= upto <= block.nodes.len(),
        gather(world, register, block, failed, depth) is Err,
    ensures
        gather(world, register, block, upto, depth) == gather(world, register, block, failed, depth),
    decreases upto,
{
    if failed < upto {
        lemma_gather_fails(world, register, block, failed, (upto - 1) as nat, depth);
    }
}

/// Where no position differs, the input is one that the declaration accepts.
proof fn lemma_no_mismatch(declared: Seq<Seq<char>>, input: Seq<RegisterView>, from: int)
    requires
        0 <= from,
        mismatch_from(declared, type_names(input), from) is None,
    ensures
        forall|i: int| from <= i ==> type_at(declared, i) == type_at(type_names(input), i),
    decreases declared.len() + input.len() - from,
{
    let found = type_names(input);
    if from >= declared.len() && from >= found.len() {
    } else {
        lemma_no_mismatch(declared, input, from + 1);
    }
}

/// Where no position differs, the input is one that the declaration accepts.
pub proof fn lemma_accepts(declared: Seq<Seq<char>>, input: Seq<RegisterView>)
    requires
        mismatch_from(declared, type_names(input), 0) is None,
    ensures
        accepts(declared, input),
{
    lemma_no_mismatch(declared, input, 0);
    let found = type_names(input);
    if declared.len() < found.len() {
        assert(type_at(declared, declared.len() as int) == type_at(found, declared.len() as int));
    }
    if found.len() < declared.len() {
        assert(type_at(declared, found.len() as int) == type_at(found, found.len() as int));
    }
    assert forall|i: int| 0 <= i < input.len() implies (#[trigger] input[i]).value.name()
        == declared[i] by {
        assert(type_at(declared, i) == type_at(found, i));
    }
}

/// The first position at which the declared types and the types of the
/// values found differ: the declared type and the type found there, each
/// empty where there is none.
pub fn find_mismatch(declared: &Vec<String>, input: &Vec<Register>) -> (r: Option<(String, String)>)
    ensures
        match r {
            Some(pair) => mismatch_from(
                texts_view(declared@),
                type_names(registers_view(input@)),
                0,
            ) matches Some(i) && pair.0@ == type_text(type_at(texts_view(declared@), i))
                && pair.1@ == type_text(type_at(type_names(registers_view(input@)), i)),
            None => mismatch_from(texts_view(declared@), type_names(registers_view(input@)), 0)
                is None,
        },
{
    let ghost want = texts_view(declared@);
    let ghost found = type_names(registers_view(input@));
    let mut i: usize = 0;
    while i < declared.len() || i < input.len()
        invariant
            want == texts_view(declared@),
            found == type_names(registers_view(input@)),
            mismatch_from(want, found, 0) == mismatch_from(want, found, i as int),
        decreases declared@.len() + input@.len() - i,
    {
        if i >= declared.len() {
            let name = input[i].value.get_name();
            return Some((String::new(), name));
        }
        if i >= input.len() {
            return Some((declared[i].clone(), String::new()));
        }
        let name = input[i].value.get_name();
        if !same_text(declared[i].as_str(), name.as_str()) {
            return Some((declared[i].clone(), name));
        }
        i += 1;
    }
    None
}

/// No lines.
fn no_lines() -> (r: Vec<String>)
    ensures
        texts_view(r@) == Seq::<Seq<char>>::empty(),
{
    let r: Vec<String> = Vec::new();
    assert(texts_view(r@) =~= Seq::<Seq<char>>::empty());
    r
}

/// No values.
fn no_registers() -> (r: Vec<Register>)
    ensures
        registers_view(r@) == Seq::<RegisterView>::empty(),
{
    let r: Vec<Register> = Vec::new();
    assert(registers_view(r@) =~= Seq::<RegisterView>::empty());
    r
}

/// Calls the handler of the kind of `block` on the gathered `input`.
pub fn call_handler<B: ExecutionBlock>(
    logic: &Logic<B>,
    code: &Vec<Block>,
    block: &Block,
    input: Output,
) -> (r: Result<Output, Error>)
    ensures
        all_described(logic.blocks@) ==> pulled_view(r) == dispatch(
            world_of(logic, code),
            block@,
            input@,
        ),
{
    let kind = match logic.get_block(block.block_type_id) {
        Some(kind) => kind,
        None => {
            return Err(Error::TypeUnknown(TypeRef::Block(block.block_type_id)));
        },
    };
    let Output { registers, lines } = input;
    if kind.get_type() == ExecutionBlockType::Start {
        return Ok(Output { registers: no_registers(), lines });
    }
    let declared = kind.get_inputs();
    match find_mismatch(&declared, &registers) {
        Some(pair) => {
            return Err(Error::TypeMismatch(pair.0, pair.1));
        },
        None => {},
    }
    proof {
        if kind.modelled() {
            lemma_accepts(kind.inputs(), registers_view(registers@));
        }
    }
    let ghost before = texts_view(lines@);
    match kind.execute(registers, block.block_id) {
        Err(cause) => Err(Error::BlockFailed(block.block_id, cause)),
        Ok(out) => {
            let Output { registers: results, lines: more } = out;
            let mut lines = lines;
            let mut more = more;
            let ghost added = texts_view(more@);
            lines.append(&mut more);
            assert(texts_view(lines@) =~= before + added);
            Ok(Output { registers: results, lines })
        },
    }
}

/// Evaluates the block `block_id`: gathers its inputs and calls its handler.
pub fn exec_inputs<B: ExecutionBlock>(
    logic: &Logic<B>,
    code: &Vec<Block>,
    register: &RegisterFile,
    block_id: u32,
    depth: u32,
) -> (r: Result<Output, Error>)
    ensures
        all_described(logic.blocks@) ==> pulled_view(r) == pull(
            world_of(logic, code),
            register@,
            block_id,
            depth as nat,
        ),
        depth == 0 ==> pulled_view(r) == Err::<OutputView, ErrorView>(ErrorView::DepthExceeded),
        depth > 0 && find_block(blocks_view(code@), block_id) is None ==> pulled_view(r) == Err::<
            OutputView,
            ErrorView,
        >(ErrorView::MissingBlock(block_id)),
    decreases depth, 0nat,
{
    if depth == 0 {
        return Err(Error::DepthExceeded);
    }
    let block = match get_block(code, block_id) {
        Some(block) => block,
        None => {
            return Err(Error::MissingBlock(block_id));
        },
    };
    match gather_inputs(logic, code, register, block, depth - 1) {
        Err(e) => Err(e),
        Ok(input) => call_handler(logic, code, block, input),
    }
}

/// Gathers the values for the data inputs of `block`, in the order of its ports.
pub fn gather_inputs<B: ExecutionBlock>(
    logic: &Logic<B>,
    code: &Vec<Block>,
    register: &RegisterFile,
    block: &Block,
    depth: u32,
) -> (r: Result<Output, Error>)
    ensures
        all_described(logic.blocks@) ==> pulled_view(r) == gather(
            world_of(logic, code),
            register@,
            block@,
            block@.nodes.len(),
            depth as nat,
        ),
    decreases depth, 2nat,
{
    let ghost world = world_of(logic, code);
    let mut registers: Vec<Register> = no_registers();
    let mut lines: Vec<String> = no_lines();
    let mut i: usize = 0;
    while i < block.nodes.len()
        invariant
            i <= block.nodes@.len(),
            block@.nodes.len() == block.nodes@.len(),
            world == world_of(logic, code),
            all_described(logic.blocks@) ==> gather(world, register@, block@, i as nat, depth as nat)
                == Ok::<OutputView, ErrorView>(
                OutputView { registers: registers_view(registers@), lines: texts_view(lines@) },
            ),
        decreases block.nodes@.len() - i,
    {
        let node = &block.nodes[i];
        assert(block@.nodes[i as int] == node@);
        if node.is_data_input() {
            match resolve_input(logic, code, register, block.block_id, node, depth) {
                Err(e) => {
                    proof {
                        if all_described(logic.blocks@) {
                            lemma_gather_fails(
                                world,
                                register@,
                                block@,
                                (i + 1) as nat,
                                block@.nodes.len(),
                                depth as nat,
                            );
                        }
                    }
                    return Err(e);
                },
                Ok(found) => {
                    let ghost before = registers_view(registers@);
                    let ghost said = texts_view(lines@);
                    let (entry, more) = found;
                    let mut more = more;
                    let ghost added = texts_view(more@);
                    registers.push(entry);
                    lines.append(&mut more);
                    assert(registers_view(registers@) =~= before.push(entry@));
                    assert(texts_view(lines@) =~= said + added);
                },
            }
        }
        i += 1;
    }
    Ok(Output { registers, lines })
}

/// Finds the value for one data input of the block `block_id`.
pub fn resolve_input<B: ExecutionBlock>(
    logic: &Logic<B>,
    code: &Vec<Block>,
    register: &RegisterFile,
    block_id: u32,
    node: &Node,
    depth: u32,
) -> (r: Result<(Register, Vec<String>), Error>)
    ensures
        all_described(logic.blocks@) ==> resolved_view(r) == resolve(
            world_of(logic, code),
            register@,
            block_id,
            node@,
            depth as nat,
        ),
    decreases depth, 1nat,
{
    match node.edge() {
        Some(edge) => {
            let kind = match logic.get_block(edge.block_type_id) {
                Some(kind) => kind,
                None => {
                    return Err(Error::TypeUnknown(TypeRef::Block(edge.block_type_id)));
                },
            };
            if kind.get_type() == ExecutionBlockType::Static {
                match exec_inputs(logic, code, register, edge.block_id, depth) {
                    Err(e) => Err(e),
                    Ok(out) => {
                        let Output { registers, lines } = out;
                        match take_output(registers, edge.node_id) {
                            Some(found) => Ok((found, lines)),
                            None => Err(Error::MissingOutput(edge.node_id)),
                        }
                    },
                }
            } else {
                match register.get(edge.block_id, edge.node_id) {
                    Some(value) => Ok(
                        (
                            Register { block_id: edge.block_id, node_id: edge.node_id, value },
                            no_lines(),
                        ),
                    ),
                    None => Err(Error::RegisterMiss(edge.block_id, edge.node_id)),
                }
            }
        },
        None => match logic.type_from_json(node.connection_type.as_str(), &node.value) {
            Ok(value) => Ok((Register { block_id, node_id: node.id, value }, no_lines())),
            Err(e) => Err(e),
        },
    }
}

/// The first of `registers` that is filed under the port `node_id`.
pub fn take_output(registers: Vec<Register>, node_id: u32) -> (r: Option<Register>)
    ensures
        match r {
            Some(found) => first_match(registers_view(registers@), at_port(node_id)) == Some(
                found@,
            ),
            None => first_match(registers_view(registers@), at_port(node_id)) is None,
        },
{
    let ghost all = registers_view(registers@);
    let mut rest = registers;
    let mut i: usize = 0;
    while i < rest.len()
        invariant
            i <= rest@.len(),
            all == registers_view(rest@),
            all == registers_view(registers@),
            forall|j: int| 0 <= j < i ==> all[j].node_id != node_id,
        decreases rest@.len() - i,
    {
        if rest[i].node_id == node_id {
            proof {
                assert(all[i as int] == rest@[i as int]@);
                lemma_first_index_is(all, at_port(node_id), i as int);
            }
            let found = rest.remove(i);
            return Some(found);
        }
        i += 1;
    }
    proof {
        lemma_first_index_none(all, at_port(node_id));
    }
    None
}

/// How a run ended: the error that stopped it, if one did, and the register
/// and the printed lines as it left them.
pub struct RunView {
    pub error: Option<ErrorView>,
    pub register: Map<(u32, u32), ValueView>,
    pub lines: Seq<Seq<char>>,
}

/// The run that starts at the block `block_id`, with `register` and `lines`
/// as they are before it.
///
/// The block is evaluated, its outputs are written to the register, and its
/// lines are added; then the run goes on at the block's successor, with what
/// the block left. It ends where a block has no successor, or fails. Once
/// it has gone on `more` times and would go on again, it fails: as a cycle
/// if the successor is a block of the program, and because the block is
/// missing if it is not.
pub open spec fn run<B: ExecutionBlock>(
    world: World<B>,
    register: Map<(u32, u32), ValueView>,
    lines: Seq<Seq<char>>,
    block_id: u32,
    more: nat,
) -> RunView
    decreases more,
{
    match pull(world, register, block_id, MAX_DEPTH as nat) {
        Err(e) => RunView { error: Some(e), register, lines },
        Ok(out) => {
            let written = write_all(register, file_under(block_id, out.registers));
            let said = lines + out.lines;
            match successor_of(world.graph, block_id) {
                None => RunView { error: None, register: written, lines: said },
                Some(next) => if more == 0 {
                    RunView {
                        error: Some(
                            if find_block(world.graph, next) is None {
                                ErrorView::MissingBlock(next)
                            } else {
                                ErrorView::GraphInvalid(Reason::ExecutionCycle)
                            },
                        ),
                        register: written,
                        lines: said,
                    }
                } else {
                    run(world, written, said, next, (more - 1) as nat)
                },
            }
        },
    }
}

/// The block that runs after the block `block_id`.
pub open spec fn successor_of(graph: Seq<BlockView>, block_id: u32) -> Option<u32> {
    match find_block(graph, block_id) {
        Some(block) => block.successor(),
        None => None,
    }
}

/// How many times a run of a program of `blocks` blocks may go on to a
/// successor before it must have come back to a block.
pub open spec fn max_steps(blocks: nat) -> nat {
    if blocks == 0 {
        0
    } else {
        (blocks - 1) as nat
    }
}

/// Runs the program from the block `next_block_id` on.
pub fn execute_block<B: ExecutionBlock>(
    logic: &Logic<B>,
    code: &Vec<Block>,
    register: &mut RegisterFile,
    console: &mut Vec<String>,
    next_block_id: u32,
) -> (r: Result<(), Error>)
    ensures
        ({
            let end = run(
                world_of(logic, code),
                old(register)@,
                texts_view(old(console)@),
                next_block_id,
                max_steps(code@.len()),
            );
            all_described(logic.blocks@) ==> {
                &&& final(register)@ == end.register
                &&& texts_view(final(console)@) == end.lines
                &&& match r {
                    Ok(_) => end.error is None,
                    Err(e) => end.error == Some(e@),
                }
            }
        }),
        find_block(blocks_view(code@), next_block_id) is None ==> {
            &&& r matches Err(e) && e@ == ErrorView::MissingBlock(next_block_id)
            &&& final(register)@ == old(register)@
            &&& final(console)@ == old(console)@
        },
{
    let ghost world = world_of(logic, code);
    let ghost end = run(
        world,
        register@,
        texts_view(console@),
        next_block_id,
        max_steps(code@.len()),
    );
    if get_block(code, next_block_id).is_none() {
        return Err(Error::MissingBlock(next_block_id));
    }
    let mut current = next_block_id;
    let mut more: usize = if code.len() == 0 {
        0
    } else {
        code.len() - 1
    };
    loop
        invariant
            world == world_of(logic, code),
            find_block(blocks_view(code@), next_block_id) is Some,
            end == run(
                world,
                old(register)@,
                texts_view(old(console)@),
                next_block_id,
                max_steps(code@.len()),
            ),
            all_described(logic.blocks@) ==> end == run(
                world,
                register@,
                texts_view(console@),
                current,
                more as nat,
            ),
        decreases more,
    {
        let out = match exec_inputs(logic, code, register, current, MAX_DEPTH) {
            Ok(out) => out,
            Err(e) => {
                return Err(e);
            },
        };
        let Output { registers, lines } = out;
        let mut lines = lines;
        let ghost said = texts_view(console@);
        let ghost added = texts_view(lines@);
        register.insert_all(current, registers);
        console.append(&mut lines);
        assert(texts_view(console@) =~= said + added);
        let next = match get_block(code, current) {
            Some(block) => block.successor(),
            None => None,
        };
        match next {
            None => {
                return Ok(());
            },
            Some(next) => {
                if more == 0 {
                    return match get_block(code, next) {
                        None => Err(Error::MissingBlock(next)),
                        Some(_) => Err(Error::GraphInvalid(Reason::ExecutionCycle)),
                    };
                }
                more = more - 1;
                current = next;
            },
        }
    }
}

/// Whether `head` is the beginning of `whole`.
pub open spec fn begins(whole: Seq<Seq<char>>, head: Seq<Seq<char>>) -> bool {
    head.len() <= whole.len() && whole.take(head.len() as int) == head
}

/// A run keeps the lines that were printed before it, at the beginning of
/// the lines that it leaves.
pub proof fn lemma_run_keeps_lines<B: ExecutionBlock>(
    world: World<B>,
    register: Map<(u32, u32), ValueView>,
    lines: Seq<Seq<char>>,
    block_id: u32,
    more: nat,
)
    ensures
        begins(run(world, register, lines, block_id, more).lines, lines),
    decreases more,
{
    assert(lines.take(lines.len() as int) =~= lines);
    match pull(world, register, block_id, MAX_DEPTH as nat) {
        Err(_) => {},
        Ok(out) => {
            let written = write_all(register, file_under(block_id, out.registers));
            let said = lines + out.lines;
            assert(said.take(lines.len() as int) =~= lines);
            match successor_of(world.graph, block_id) {
                None => {},
                Some(next) => {
                    if more > 0 {
                        lemma_run_keeps_lines(world, written, said, next, (more - 1) as nat);
                        let end = run(world, written, said, next, (more - 1) as nat).lines;
                        assert(end.take(lines.len() as int) =~= end.take(said.len() as int).take(
                            lines.len() as int,
                        ));
                    }
                },
            }
        },
    }
}

/// Where execution goes from a block to its successor, the successor is
/// evaluated after the block: the run goes on from the register that the
/// block's outputs were written to, and what the block printed stands
/// before everything that is printed from the successor on.
pub proof fn lemma_execution_order<B: ExecutionBlock>(
    world: World<B>,
    register: Map<(u32, u32), ValueView>,
    lines: Seq<Seq<char>>,
    block_id: u32,
    more: nat,
)
    requires
        more > 0,
        pull(world, register, block_id, MAX_DEPTH as nat) is Ok,
        successor_of(world.graph, block_id) is Some,
    ensures
        ({
            let out = pull(world, register, block_id, MAX_DEPTH as nat)->Ok_0;
            let next = successor_of(world.graph, block_id)->0;
            let written = write_all(register, file_under(block_id, out.registers));
            &&& run(world, register, lines, block_id, more) == run(
                world,
                written,
                lines + out.lines,
                next,
                (more - 1) as nat,
            )
            &&& begins(run(world, register, lines, block_id, more).lines, lines + out.lines)
        }),
{
    let out = pull(world, register, block_id, MAX_DEPTH as nat)->Ok_0;
    let next = successor_of(world.graph, block_id)->0;
    let written = write_all(register, file_under(block_id, out.registers));
    lemma_run_keeps_lines(world, written, lines + out.lines, next, (more - 1) as nat);
}

} // verus!

//! What holds of every run of a program that may run.

use crate::block::{execution_output, find_block, has_id, leads_on, BlockView, NodeType, NodeView};
use crate::evaluate::{
    dispatch, gather, lemma_accepts, max_steps, pull, resolve, run, successor_of, type_at, World,
    MAX_DEPTH,
};
use crate::executer::{execution, first_unfit, lemma_valid_blocks, seed_entries};
use crate::logic::{
    all_lawful, find_kind, is_kind, lawful, output_port, well_formed, ExecutionBlock,
    ExecutionBlockType,
};
use crate::register::{file_under, write_all, RegisterView};
use crate::search::{first_match, lemma_first_index};
use crate::types::ValueView;
use crate::validate::{
    chain_ends, edge_holds, fault, has_port, is_loose, is_start, offers, out_of_place, ports_match,
};
use vstd::prelude::*;

verus! {

/// Whether `key` names an output port of a block of a start or normal kind,
/// and `value` is of the type of that port.
pub open spec fn is_output_of<B: ExecutionBlock>(
    world: World<B>,
    key: (u32, u32),
    value: ValueView,
) -> bool {
    match find_block(world.graph, key.0) {
        None => false,
        Some(block) => match find_kind(world.kinds, block.block_type_id) {
            None => false,
            Some(kind) => kind.category() != ExecutionBlockType::Static && exists|i: int|
                0 <= i < block.nodes.len() && (#[trigger] block.nodes[i]).id == key.1
                    && block.nodes[i].node_type == NodeType::Output
                    && block.nodes[i].connection_type == value.name(),
        },
    }
}

/// The blocks that a run evaluates.
pub open spec fn visits<B: ExecutionBlock>(
    world: World<B>,
    register: Map<(u32, u32), ValueView>,
    block_id: u32,
    more: nat,
) -> Set<u32>
    decreases more,
{
    match pull(world, register, block_id, MAX_DEPTH as nat) {
        Err(_) => set![block_id],
        Ok(out) => match successor_of(world.graph, block_id) {
            None => set![block_id],
            Some(next) => if more == 0 {
                set![block_id]
            } else {
                visits(
                    world,
                    write_all(register, file_under(block_id, out.registers)),
                    next,
                    (more - 1) as nat,
                ).insert(block_id)
            },
        },
    }
}

/// The blocks that the run of a program evaluates, on the seed values `seed`.
pub open spec fn visited<B: ExecutionBlock>(world: World<B>, seed: Seq<ValueView>) -> Set<u32> {
    match first_match(world.graph, is_start(world.kinds)) {
        None => Set::empty(),
        Some(start) => visits(
            world,
            write_all(Map::empty(), seed_entries(start.block_id, seed)),
            start.block_id,
            max_steps(world.graph.len()),
        ),
    }
}

/// Whether every entry of `register` is good.
pub open spec fn all_entries(
    register: Map<(u32, u32), ValueView>,
    good: spec_fn((u32, u32), ValueView) -> bool,
) -> bool {
    forall|key: (u32, u32)| #[trigger] register.contains_key(key) ==> good(key, register[key])
}

/// Writing good entries into a register of good entries leaves a register
/// of good entries.
pub proof fn lemma_write_all_keeps(
    register: Map<(u32, u32), ValueView>,
    entries: Seq<RegisterView>,
    good: spec_fn((u32, u32), ValueView) -> bool,
)
    requires
        all_entries(register, good),
        forall|i: int|
            0 <= i < entries.len() ==> good(
                ((#[trigger] entries[i]).block_id, entries[i].node_id),
                entries[i].value,
            ),
    ensures
        all_entries(write_all(register, entries), good),
    decreases entries.len(),
{
    if entries.len() > 0 {
        let first = register.insert((entries[0].block_id, entries[0].node_id), entries[0].value);
        let rest = entries.skip(1);
        assert forall|i: int| 0 <= i < rest.len() implies good(
            ((#[trigger] rest[i]).block_id, rest[i].node_id),
            rest[i].value,
        ) by {
            assert(rest[i] == entries[i + 1]);
        }
        lemma_write_all_keeps(first, rest, good);
    }
}

/// The condition on a register entry that it is an output of a block of a
/// start or normal kind, of the type of its port, and of a block in `seen`.
pub open spec fn is_seen_output<B: ExecutionBlock>(world: World<B>, seen: Set<u32>) -> spec_fn(
    (u32, u32),
    ValueView,
) -> bool {
    |key: (u32, u32), value: ValueView| is_output_of(world, key, value) && seen.contains(key.0)
}

/// Whether the block `block_id`, if the program has it and its kind is
/// registered, is of a start or normal kind.
pub open spec fn is_stateful<B: ExecutionBlock>(world: World<B>, block_id: u32) -> bool {
    match find_block(world.graph, block_id) {
        None => true,
        Some(block) => match find_kind(world.kinds, block.block_type_id) {
            None => true,
            Some(kind) => kind.category() != ExecutionBlockType::Static,
        },
    }
}

/// A block that is found by its id is a block of the program, with that id.
pub proof fn lemma_found_block(graph: Seq<BlockView>, block_id: u32) -> (at: int)
    requires
        find_block(graph, block_id) is Some,
    ensures
        0 <= at < graph.len(),
        find_block(graph, block_id) == Some(graph[at]),
        graph[at].block_id == block_id,
{
    lemma_first_index(graph, has_id(block_id));
    crate::search::first_index(graph, has_id(block_id))->0
}

/// In a program that may run, what the handler of a block of a start or
/// normal kind returns are outputs of that block.
pub proof fn lemma_outputs_are_ports<B: ExecutionBlock>(
    world: World<B>,
    register: Map<(u32, u32), ValueView>,
    block_id: u32,
    depth: nat,
    seen: Set<u32>,
)
    requires
        all_lawful(world.kinds),
        fault(world) is None,
        is_stateful(world, block_id),
        seen.contains(block_id),
        pull(world, register, block_id, depth) is Ok,
    ensures
        ({
            let entries = file_under(block_id, pull(world, register, block_id, depth)->Ok_0.registers);
            forall|i: int|
                0 <= i < entries.len() ==> is_seen_output(world, seen)(
                    ((#[trigger] entries[i]).block_id, entries[i].node_id),
                    entries[i].value,
                )
        }),
{
    let at = lemma_found_block(world.graph, block_id);
    let block = world.graph[at];
    let input = gather(world, register, block, block.nodes.len(), (depth - 1) as nat)->Ok_0;
    let out = dispatch(world, block, input)->Ok_0;
    let kind = find_kind(world.kinds, block.block_type_id)->0;
    let entries = file_under(block_id, out.registers);
    lemma_valid_blocks(world, at);
    if kind.category() != ExecutionBlockType::Start {
        lemma_accepts(kind.inputs(), input.registers);
        lemma_first_index(world.kinds, is_kind::<B>(block.block_type_id));
        assert(lawful(kind));
        let given = kind.outcome(input.registers, block.block_id)->Ok_0;
        assert(out.registers == given.registers);
        assert(well_formed(kind.outputs(), block.block_id, given.registers));
        assert forall|i: int| 0 <= i < entries.len() implies is_seen_output(world, seen)(
            ((#[trigger] entries[i]).block_id, entries[i].node_id),
            entries[i].value,
        ) by {
            assert(given.registers[i].node_id == output_port(i));
            assert(offers(block.nodes, output_port(i), kind.outputs()[i]));
            lemma_first_index(block.nodes, has_port(output_port(i)));
            let k = crate::search::first_index(block.nodes, has_port(output_port(i)))->0;
            assert(block.nodes[k].id == entries[i].node_id);
        }
    }
}

/// In a program that may run, execution goes on from a block to a block of
/// a normal kind only.
pub proof fn lemma_successor_is_stateful<B: ExecutionBlock>(world: World<B>, block_id: u32)
    requires
        fault(world) is None,
        successor_of(world.graph, block_id) is Some,
        find_block(world.graph, block_id) matches Some(block) && find_kind(
            world.kinds,
            block.block_type_id,
        ) is Some,
    ensures
        is_stateful(world, successor_of(world.graph, block_id)->0),
{
    let at = lemma_found_block(world.graph, block_id);
    let block = world.graph[at];
    lemma_valid_blocks(world, at);
    lemma_first_index(block.nodes, leads_on());
    let node = execution_output(block.nodes)->0;
    let edge = node.edge()->0;
    lemma_first_index(block.nodes, is_loose(world.graph, block.block_id));
    assert(edge_holds(world.graph, block.block_id, node));
    let to = lemma_found_block(world.graph, edge.block_id);
    let peer = world.graph[to];
    lemma_valid_blocks(world, to);
    lemma_first_index(peer.nodes, has_port(edge.node_id as int));
    let k = crate::search::first_index(peer.nodes, has_port(edge.node_id as int))->0;
    let kind = find_kind(world.kinds, peer.block_type_id)->0;
    assert(ports_match(kind, peer));
    assert(!out_of_place(kind.category(), peer.nodes[k]));
}

/// A run of a program that may run, from a block of a start or normal kind
/// on, leaves in the register only outputs of blocks of start and normal
/// kinds that it has evaluated, each of the type of its port, if the
/// register held only such outputs of blocks seen before.
pub proof fn lemma_run_holds_outputs<B: ExecutionBlock>(
    world: World<B>,
    register: Map<(u32, u32), ValueView>,
    lines: Seq<Seq<char>>,
    block_id: u32,
    more: nat,
    seen: Set<u32>,
)
    requires
        all_lawful(world.kinds),
        fault(world) is None,
        is_stateful(world, block_id),
        all_entries(register, is_seen_output(world, seen)),
        run(world, register, lines, block_id, more).error is None,
    ensures
        all_entries(
            run(world, register, lines, block_id, more).register,
            is_seen_output(world, seen + visits(world, register, block_id, more)),
        ),
    decreases more,
{
    let out = pull(world, register, block_id, MAX_DEPTH as nat)->Ok_0;
    let entries = file_under(block_id, out.registers);
    let written = write_all(register, entries);
    let now = seen.insert(block_id);
    let all = seen + visits(world, register, block_id, more);
    assert(all.contains(block_id));
    lemma_outputs_are_ports(world, register, block_id, MAX_DEPTH as nat, now);
    assert(all_entries(register, is_seen_output(world, now)));
    lemma_write_all_keeps(register, entries, is_seen_output(world, now));
    match successor_of(world.graph, block_id) {
        None => {
            assert(now =~= all);
        },
        Some(next) => {
            lemma_successor_is_stateful(world, block_id);
            lemma_run_holds_outputs(world, written, lines + out.lines, next, (more - 1) as nat, now);
            assert(now + visits(world, written, next, (more - 1) as nat) =~= all);
        },
    }
}

/// After a run that ended well, every entry of the register is an output of
/// a block of a start or normal kind that the run evaluated, and its value
/// is of the type of that port.
pub proof fn lemma_register_holds_outputs<B: ExecutionBlock>(world: World<B>, seed: Seq<ValueView>)
    requires
        all_lawful(world.kinds),
        fault(world) is None,
        execution(world, seed).error is None,
    ensures
        forall|key: (u32, u32)| #[trigger]
            execution(world, seed).register.contains_key(key) ==> is_output_of(
                world,
                key,
                execution(world, seed).register[key],
            ) && visited(world, seed).contains(key.0),
{
    lemma_first_index(world.graph, is_start(world.kinds));
    let at = crate::search::first_index(world.graph, is_start(world.kinds))->0;
    let start = world.graph[at];
    let kind = find_kind(world.kinds, start.block_type_id)->0;
    let declared = kind.outputs();
    let entries = seed_entries(start.block_id, seed);
    let seen = set![start.block_id];
    let good = is_seen_output(world, seen);
    lemma_valid_blocks(world, at);
    lemma_first_repeat_none(world.graph, at);
    assert(find_block(world.graph, start.block_id) == Some(start));
    assert forall|i: int| 0 <= i < entries.len() implies good(
        ((#[trigger] entries[i]).block_id, entries[i].node_id),
        entries[i].value,
    ) by {
        lemma_first_unfit_none(declared, seed, seed.len(), i);
        assert(offers(start.nodes, output_port(i), declared[i]));
        lemma_first_index(start.nodes, has_port(output_port(i)));
        let k = crate::search::first_index(start.nodes, has_port(output_port(i)))->0;
        assert(start.nodes[k].id == entries[i].node_id);
    }
    let seeded = write_all(Map::empty(), entries);
    assert(all_entries(Map::<(u32, u32), ValueView>::empty(), good));
    lemma_write_all_keeps(Map::empty(), entries, good);
    lemma_run_holds_outputs(
        world,
        seeded,
        Seq::empty(),
        start.block_id,
        max_steps(world.graph.len()),
        seen,
    );
    let all = seen + visits(world, seeded, start.block_id, max_steps(world.graph.len()));
    assert(all =~= visited(world, seed));
}

/// Where no seed value fails to fit, each fits the output at its position.
pub proof fn lemma_first_unfit_none(
    declared: Seq<Seq<char>>,
    seed: Seq<ValueView>,
    upto: nat,
    at: int,
)
    requires
        upto <= seed.len(),
        first_unfit(declared, seed, upto) is None,
        0 <= at < upto,
    ensures
        type_at(declared, at) == Some(seed[at].name()),
    decreases upto,
{
    if at < upto - 1 {
        lemma_first_unfit_none(declared, seed, (upto - 1) as nat, at);
    }
}

/// In a program whose block ids are distinct, a block is what is found by its id.
pub proof fn lemma_first_repeat_none(graph: Seq<BlockView>, at: int)
    requires
        crate::validate::first_repeat(graph, graph.len()) is None,
        0 <= at < graph.len(),
    ensures
        find_block(graph, graph[at].block_id) == Some(graph[at]),
{
    lemma_first_index(graph, has_id(graph[at].block_id));
    let found = crate::search::first_index(graph, has_id(graph[at].block_id))->0;
    if found < at {
        lemma_no_repeat(graph, graph.len(), at);
        assert(crate::validate::repeats(graph, at));
    }
}

/// Where no block among the first has the id of an earlier one, none of
/// them repeats.
pub proof fn lemma_no_repeat(graph: Seq<BlockView>, upto: nat, at: int)
    requires
        upto <= graph.len(),
        crate::validate::first_repeat(graph, upto) is None,
        0 <= at < upto,
    ensures
        !crate::validate::repeats(graph, at),
    decreases upto,
{
    if at < upto - 1 {
        lemma_no_repeat(graph, (upto - 1) as nat, at);
    }
}

/// Whether the block `block_id` is of a static kind.
pub open spec fn is_static<B: ExecutionBlock>(world: World<B>, block_id: u32) -> bool {
    match find_block(world.graph, block_id) {
        None => false,
        Some(block) => match find_kind(world.kinds, block.block_type_id) {
            None => false,
            Some(kind) => kind.category() == ExecutionBlockType::Static,
        },
    }
}

/// Whether two registers hold the same for every port of every block that
/// is not of a static kind.
pub open spec fn agree_but_on_static<B: ExecutionBlock>(
    world: World<B>,
    a: Map<(u32, u32), ValueView>,
    b: Map<(u32, u32), ValueView>,
) -> bool {
    forall|key: (u32, u32)|
        !is_static(world, key.0) ==> (#[trigger] a.contains_key(key) == b.contains_key(key)) && (
        a.contains_key(key) ==> a[key] == b[key])
}

/// The value of an output of a static block is computed from what feeds
/// the block, and never read from the register: whatever the register
/// holds for the ports of static blocks, evaluating a block of a program
/// that may run returns the same.
pub proof fn lemma_static_outputs_are_computed<B: ExecutionBlock>(
    world: World<B>,
    a: Map<(u32, u32), ValueView>,
    b: Map<(u32, u32), ValueView>,
    block_id: u32,
    depth: nat,
)
    requires
        fault(world) is None,
        agree_but_on_static(world, a, b),
    ensures
        pull(world, a, block_id, depth) == pull(world, b, block_id, depth),
    decreases depth, 0nat, 0nat,
{
    if depth > 0 && find_block(world.graph, block_id) is Some {
        let at = lemma_found_block(world.graph, block_id);
        lemma_gather_agrees(world, a, b, at, world.graph[at].nodes.len(), (depth - 1) as nat);
    }
}

/// Gathering the inputs of a block returns the same for two registers that
/// differ on the ports of static blocks only.
pub proof fn lemma_gather_agrees<B: ExecutionBlock>(
    world: World<B>,
    a: Map<(u32, u32), ValueView>,
    b: Map<(u32, u32), ValueView>,
    at: int,
    upto: nat,
    depth: nat,
)
    requires
        fault(world) is None,
        agree_but_on_static(world, a, b),
        0 <= at < world.graph.len(),
    ensures
        gather(world, a, world.graph[at], upto, depth) == gather(
            world,
            b,
            world.graph[at],
            upto,
            depth,
        ),
    decreases depth, 2nat, upto,
{
    let block = world.graph[at];
    if upto > 0 && upto <= block.nodes.len() {
        lemma_gather_agrees(world, a, b, at, (upto - 1) as nat, depth);
        lemma_resolve_agrees(world, a, b, at, upto - 1, depth);
    }
}

/// Finding the value of an input returns the same for two registers that
/// differ on the ports of static blocks only.
pub proof fn lemma_resolve_agrees<B: ExecutionBlock>(
    world: World<B>,
    a: Map<(u32, u32), ValueView>,
    b: Map<(u32, u32), ValueView>,
    at: int,
    port: int,
    depth: nat,
)
    requires
        fault(world) is None,
        agree_but_on_static(world, a, b),
        0 <= at < world.graph.len(),
        0 <= port < world.graph[at].nodes.len(),
    ensures
        resolve(world, a, world.graph[at].block_id, world.graph[at].nodes[port], depth) == resolve(
            world,
            b,
            world.graph[at].block_id,
            world.graph[at].nodes[port],
            depth,
        ),
    decreases depth, 1nat, 0nat,
{
    let block = world.graph[at];
    let node = block.nodes[port];
    match node.edge() {
        None => {},
        Some(edge) => {
            match find_kind(world.kinds, edge.block_type_id) {
                None => {},
                Some(kind) => {
                    if kind.category() == ExecutionBlockType::Static {
                        lemma_static_outputs_are_computed(world, a, b, edge.block_id, depth);
                    } else {
                        lemma_valid_blocks(world, at);
                        lemma_first_index(block.nodes, is_loose(world.graph, block.block_id));
                        assert(edge_holds(world.graph, block.block_id, node));
                        assert(!is_static(world, edge.block_id));
                        let key = (edge.block_id, edge.node_id);
                        assert(a.contains_key(key) == b.contains_key(key));
                    }
                },
            }
        },
    }
}

/// Evaluating a block never fails with an error of loading.
pub proof fn lemma_pull_fails_at_run_time<B: ExecutionBlock>(
    world: World<B>,
    register: Map<(u32, u32), ValueView>,
    block_id: u32,
    depth: nat,
)
    ensures
        pull(world, register, block_id, depth) matches Err(e) ==> !(e is GraphInvalid),
    decreases depth, 0nat, 0nat,
{
    if depth > 0 {
        match find_block(world.graph, block_id) {
            None => {},
            Some(block) => {
                lemma_gather_fails_at_run_time(
                    world,
                    register,
                    block,
                    block.nodes.len(),
                    (depth - 1) as nat,
                );
            },
        }
    }
}

/// Gathering the inputs of a block never fails with an error of loading.
pub proof fn lemma_gather_fails_at_run_time<B: ExecutionBlock>(
    world: World<B>,
    register: Map<(u32, u32), ValueView>,
    block: BlockView,
    upto: nat,
    depth: nat,
)
    ensures
        gather(world, register, block, upto, depth) matches Err(e) ==> !(e is GraphInvalid),
    decreases depth, 2nat, upto,
{
    if upto > 0 && upto <= block.nodes.len() {
        lemma_gather_fails_at_run_time(world, register, block, (upto - 1) as nat, depth);
        lemma_resolve_fails_at_run_time(world, register, block.block_id, block.nodes[upto - 1], depth);
    }
}

/// Finding the value of an input never fails with an error of loading.
pub proof fn lemma_resolve_fails_at_run_time<B: ExecutionBlock>(
    world: World<B>,
    register: Map<(u32, u32), ValueView>,
    block_id: u32,
    node: NodeView,
    depth: nat,
)
    ensures
        resolve(world, register, block_id, node, depth) matches Err(e) ==> !(e is GraphInvalid),
    decreases depth, 1nat, 0nat,
{
    match node.edge() {
        None => {},
        Some(edge) => {
            lemma_pull_fails_at_run_time(world, register, edge.block_id, depth);
        },
    }
}

/// A run along execution edges that come to an end within the steps that
/// the run may make never fails with an error of loading.
pub proof fn lemma_run_fails_at_run_time<B: ExecutionBlock>(
    world: World<B>,
    register: Map<(u32, u32), ValueView>,
    lines: Seq<Seq<char>>,
    block_id: u32,
    more: nat,
)
    requires
        chain_ends(world.graph, block_id, more),
    ensures
        run(world, register, lines, block_id, more).error matches Some(e) ==> !(e is GraphInvalid),
    decreases more,
{
    lemma_pull_fails_at_run_time(world, register, block_id, MAX_DEPTH as nat);
    match pull(world, register, block_id, MAX_DEPTH as nat) {
        Err(_) => {},
        Ok(out) => {
            match successor_of(world.graph, block_id) {
                None => {},
                Some(next) => {
                    if more > 0 {
                        lemma_run_fails_at_run_time(
                            world,
                            write_all(register, file_under(block_id, out.registers)),
                            lines + out.lines,
                            next,
                            (more - 1) as nat,
                        );
                    }
                },
            }
        },
    }
}

/// The run of a program that may run never fails with an error of loading:
/// what `analyze` accepts, `execute` does not refuse as a program.
pub proof fn lemma_loaded_program_runs<B: ExecutionBlock>(world: World<B>, seed: Seq<ValueView>)
    requires
        fault(world) is None,
    ensures
        execution(world, seed).error matches Some(e) ==> !(e is GraphInvalid),
{
    match first_match(world.graph, is_start(world.kinds)) {
        None => {},
        Some(start) => {
            lemma_first_index(world.graph, crate::validate::is_faulty(world));
            lemma_run_fails_at_run_time(
                world,
                write_all(Map::empty(), seed_entries(start.block_id, seed)),
                Seq::empty(),
                start.block_id,
                max_steps(world.graph.len()),
            );
        },
    }
}

} // verus!

//! What is asked of a program before it may run.

use crate::block::{blocks_view, find_block, get_block, Block, BlockView, Node, NodeType, NodeView};
use crate::error::{Error, ErrorView, Reason, TypeRef, TypeRefView};
use crate::evaluate::{max_steps, successor_of, world_of, World};
use crate::logic::{
    all_described, find_kind, find_type, is_of, output_port, ExecutionBlock, ExecutionBlockType,
    Logic,
};
use crate::search::{first_index, first_match, lemma_first_index_is, lemma_first_index_none};
use crate::block::nodes_view;
use crate::text::{same_text, same_texts, texts_view};
use vstd::prelude::*;

verus! {

/// The condition that a port has the id `id`.
pub open spec fn has_port(id: int) -> spec_fn(NodeView) -> bool {
    |n: NodeView| n.id == id
}

/// Whether an earlier block of `graph` has the id of the block at `at`.
pub open spec fn repeats(graph: Seq<BlockView>, at: int) -> bool {
    exists|j: int| 0 <= j < at && (#[trigger] graph[j]).block_id == graph[at].block_id
}

/// Whether the block is of a start kind.
pub open spec fn starts<B: ExecutionBlock>(kinds: Seq<B>, block: BlockView) -> bool {
    match find_kind(kinds, block.block_type_id) {
        Some(kind) => kind.category() == ExecutionBlockType::Start,
        None => false,
    }
}

/// The condition that a block is of a start kind.
pub open spec fn is_start<B: ExecutionBlock>(kinds: Seq<B>) -> spec_fn(BlockView) -> bool {
    |b: BlockView| starts(kinds, b)
}

/// Whether two different blocks of `graph` are of a start kind.
pub open spec fn several_starts<B: ExecutionBlock>(kinds: Seq<B>, graph: Seq<BlockView>) -> bool {
    exists|i: int, j: int|
        0 <= i < j < graph.len() && starts(kinds, #[trigger] graph[i]) && starts(
            kinds,
            #[trigger] graph[j],
        )
}

/// The types of the data inputs among the first `upto` ports, in order.
pub open spec fn input_types(nodes: Seq<NodeView>, upto: nat) -> Seq<Seq<char>>
    decreases upto,
{
    if upto == 0 || upto > nodes.len() {
        Seq::empty()
    } else {
        let before = input_types(nodes, (upto - 1) as nat);
        if nodes[upto - 1].is_data_input() {
            before.push(nodes[upto - 1].connection_type)
        } else {
            before
        }
    }
}

/// Whether `nodes` has an output with the id `port` and the type `name`,
/// and no other port with that id before it.
pub open spec fn offers(nodes: Seq<NodeView>, port: int, name: Seq<char>) -> bool {
    match first_match(nodes, has_port(port)) {
        Some(node) => node.node_type == NodeType::Output && node.connection_type == name,
        None => false,
    }
}

/// Whether a block of a kind of the category `category` may not have the
/// port `node`: a static block has no execution ports, and execution does
/// not enter a start block.
pub open spec fn out_of_place(category: ExecutionBlockType, node: NodeView) -> bool {
    match category {
        ExecutionBlockType::Static => node.connection_type == "Execution"@,
        ExecutionBlockType::Start => node.node_type == NodeType::Input && node.connection_type
            == "Execution"@,
        ExecutionBlockType::Normal => false,
    }
}

/// Whether the block has the ports that its kind declares: its data inputs
/// are of the declared types, in order, each declared output has its port,
/// and no port is out of place.
pub open spec fn ports_match<B: ExecutionBlock>(kind: B, block: BlockView) -> bool {
    &&& forall|i: int|
        0 <= i < block.nodes.len() ==> !out_of_place(kind.category(), #[trigger] block.nodes[i])
    &&& input_types(block.nodes, block.nodes.len()) == kind.inputs()
    &&& forall|i: int|
        0 <= i < kind.outputs().len() ==> offers(
            block.nodes,
            output_port(i),
            #[trigger] kind.outputs()[i],
        )
}

/// Whether the edge stored on `node`, a port of the block `owner`, leads to a
/// port of the other direction and the same type, on another block, of the
/// kind that the edge names.
pub open spec fn edge_holds(graph: Seq<BlockView>, owner: u32, node: NodeView) -> bool {
    match node.edge() {
        None => true,
        Some(edge) => edge.block_id != owner && match find_block(graph, edge.block_id) {
            None => false,
            Some(peer) => peer.block_type_id == edge.block_type_id && match first_match(
                peer.nodes,
                has_port(edge.node_id as int),
            ) {
                None => false,
                Some(port) => port.node_type != node.node_type && port.connection_type
                    == node.connection_type,
            },
        },
    }
}

/// The condition that the type of a port is not registered.
pub open spec fn is_untyped(types: Seq<crate::types::ValueView>) -> spec_fn(NodeView) -> bool {
    |n: NodeView| find_type(types, n.connection_type) is None
}

/// The condition that the edge on a port of the block `owner` does not hold.
pub open spec fn is_loose(graph: Seq<BlockView>, owner: u32) -> spec_fn(NodeView) -> bool {
    |n: NodeView| !edge_holds(graph, owner, n)
}

/// What is wrong with a block, if anything: the first of an unknown kind, a
/// port of an unknown type, ports that are not those of its kind, and an
/// edge that does not hold.
pub open spec fn block_fault<B: ExecutionBlock>(world: World<B>, block: BlockView) -> Option<
    ErrorView,
> {
    match find_kind(world.kinds, block.block_type_id) {
        None => Some(ErrorView::TypeUnknown(TypeRefView::Block(block.block_type_id))),
        Some(kind) => match first_match(block.nodes, is_untyped(world.types)) {
            Some(node) => Some(
                ErrorView::TypeUnknown(TypeRefView::Connection(node.connection_type)),
            ),
            None => if !ports_match(kind, block) {
                Some(ErrorView::GraphInvalid(Reason::Ports { block: block.block_id }))
            } else {
                match first_match(block.nodes, is_loose(world.graph, block.block_id)) {
                    Some(node) => Some(
                        ErrorView::GraphInvalid(
                            Reason::Edge { block: block.block_id, node: node.id },
                        ),
                    ),
                    None => None,
                }
            },
        },
    }
}

/// The condition that something is wrong with a block.
pub open spec fn is_faulty<B: ExecutionBlock>(world: World<B>) -> spec_fn(BlockView) -> bool {
    |b: BlockView| block_fault(world, b) is Some
}

/// The first position in `graph` of a block with the id of an earlier one.
pub open spec fn first_repeat(graph: Seq<BlockView>, upto: nat) -> Option<int>
    decreases upto,
{
    if upto == 0 || upto > graph.len() {
        None
    } else {
        match first_repeat(graph, (upto - 1) as nat) {
            Some(i) => Some(i),
            None => if repeats(graph, upto - 1) {
                Some(upto - 1)
            } else {
                None
            },
        }
    }
}

/// Whether following the execution edges from the block `block_id` on comes
/// to an end within `more` steps: at a block without a successor, or at an
/// edge to a block that the program does not have.
pub open spec fn chain_ends(graph: Seq<BlockView>, block_id: u32, more: nat) -> bool
    decreases more,
{
    match successor_of(graph, block_id) {
        None => true,
        Some(next) => if more == 0 {
            find_block(graph, next) is None
        } else {
            chain_ends(graph, next, (more - 1) as nat)
        },
    }
}

/// Whether execution, started at the start block, comes back to a block: in
/// a program of distinct blocks, whether it goes on for as many steps as
/// there are blocks.
pub open spec fn cycles<B: ExecutionBlock>(world: World<B>) -> bool {
    match first_match(world.graph, is_start(world.kinds)) {
        Some(start) => !chain_ends(world.graph, start.block_id, max_steps(world.graph.len())),
        None => false,
    }
}

/// Why a program may not run, if it may not. What is asked of it, in this
/// order: the ids of the blocks are distinct; the catalog has at most one
/// start kind; nothing is wrong with any block; the program has at most one
/// start block; execution does not come back to a block.
pub open spec fn fault<B: ExecutionBlock>(world: World<B>) -> Option<ErrorView> {
    match first_repeat(world.graph, world.graph.len()) {
        Some(i) => Some(
            ErrorView::GraphInvalid(Reason::DuplicateBlock { block: world.graph[i].block_id }),
        ),
        None => if world.kinds.filter(is_of::<B>(ExecutionBlockType::Start)).len() > 1 {
            Some(ErrorView::GraphInvalid(Reason::SeveralStartKinds))
        } else {
            match first_match(world.graph, is_faulty(world)) {
                Some(block) => block_fault(world, block),
                None => if several_starts(world.kinds, world.graph) {
                    Some(ErrorView::GraphInvalid(Reason::SeveralStartBlocks))
                } else if cycles(world) {
                    Some(ErrorView::GraphInvalid(Reason::ExecutionCycle))
                } else {
                    None
                },
            }
        },
    }
}

/// The view of an error that may be absent.
pub open spec fn fault_view(r: Option<Error>) -> Option<ErrorView> {
    match r {
        Some(e) => Some(e@),
        None => None,
    }
}

/// A repeat among the first blocks is the first repeat of every longer run.
pub proof fn lemma_first_repeat_stays(graph: Seq<BlockView>, found: nat, upto: nat)
    requires
        found <= upto <= graph.len(),
        first_repeat(graph, found) is Some,
    ensures
        first_repeat(graph, upto) == first_repeat(graph, found),
    decreases upto,
{
    if found < upto {
        lemma_first_repeat_stays(graph, found, (upto - 1) as nat);
    }
}

/// The id of the first block that has the id of an earlier one.
#[verifier::loop_isolation(false)]
pub fn find_repeat(code: &Vec<Block>) -> (r: Option<u32>)
    ensures
        match r {
            Some(id) => first_repeat(blocks_view(code@), code@.len()) matches Some(i)
                && blocks_view(code@)[i].block_id == id,
            None => first_repeat(blocks_view(code@), code@.len()) is None,
        },
{
    let ghost graph = blocks_view(code@);
    let mut i: usize = 0;
    while i < code.len()
        invariant
            i <= code@.len(),
            graph == blocks_view(code@),
            first_repeat(graph, i as nat) is None,
        decreases code@.len() - i,
    {
        let mut j: usize = 0;
        while j < i
            invariant
                j <= i < code@.len(),
                graph == blocks_view(code@),
                forall|k: int| 0 <= k < j ==> (#[trigger] graph[k]).block_id != graph[i as int].block_id,
            decreases i - j,
        {
            if code[j].block_id == code[i].block_id {
                proof {
                    assert(graph[j as int].block_id == graph[i as int].block_id);
                    assert(repeats(graph, i as int));
                    assert(first_repeat(graph, (i + 1) as nat) == Some(i as int));
                    lemma_first_repeat_stays(graph, (i + 1) as nat, code@.len());
                }
                return Some(code[i].block_id);
            }
            j += 1;
        }
        assert(!repeats(graph, i as int));
        i += 1;
    }
    None
}

/// The first port of `nodes` with the id `id`.
pub fn find_port(nodes: &Vec<Node>, id: u64) -> (r: Option<&Node>)
    ensures
        match r {
            Some(node) => first_match(nodes_view(nodes@), has_port(id as int)) == Some(node@),
            None => first_match(nodes_view(nodes@), has_port(id as int)) is None,
        },
{
    let ghost all = nodes_view(nodes@);
    let mut i: usize = 0;
    while i < nodes.len()
        invariant
            i <= nodes@.len(),
            all == nodes_view(nodes@),
            forall|j: int| 0 <= j < i ==> all[j].id != id,
        decreases nodes@.len() - i,
    {
        if nodes[i].id as u64 == id {
            proof {
                assert(all[i as int] == nodes@[i as int]@);
                lemma_first_index_is(all, has_port(id as int), i as int);
            }
            return Some(&nodes[i]);
        }
        i += 1;
    }
    proof {
        lemma_first_index_none(all, has_port(id as int));
    }
    None
}

/// Whether the edge stored on `node`, a port of the block `owner`, holds.
pub fn edge_holds_in(code: &Vec<Block>, owner: u32, node: &Node) -> (r: bool)
    ensures
        r == edge_holds(blocks_view(code@), owner, node@),
{
    match node.edge() {
        None => true,
        Some(edge) => {
            if edge.block_id == owner {
                return false;
            }
            match get_block(code, edge.block_id) {
                None => false,
                Some(peer) => {
                    if peer.block_type_id != edge.block_type_id {
                        return false;
                    }
                    match find_port(&peer.nodes, edge.node_id as u64) {
                        None => false,
                        Some(port) => {
                            let opposite = match (port.node_type, node.node_type) {
                                (NodeType::Input, NodeType::Output) => true,
                                (NodeType::Output, NodeType::Input) => true,
                                _ => false,
                            };
                            opposite && same_text(
                                port.connection_type.as_str(),
                                node.connection_type.as_str(),
                            )
                        },
                    }
                },
            }
        },
    }
}

/// The types of the data inputs of `nodes`, in order.
pub fn input_types_of(nodes: &Vec<Node>) -> (r: Vec<String>)
    ensures
        texts_view(r@) == input_types(nodes_view(nodes@), nodes@.len()),
{
    let ghost all = nodes_view(nodes@);
    let mut out: Vec<String> = Vec::new();
    assert(texts_view(out@) =~= input_types(all, 0));
    let mut i: usize = 0;
    while i < nodes.len()
        invariant
            i <= nodes@.len(),
            all == nodes_view(nodes@),
            texts_view(out@) == input_types(all, i as nat),
        decreases nodes@.len() - i,
    {
        assert(all[i as int] == nodes@[i as int]@);
        if nodes[i].is_data_input() {
            let ghost before = texts_view(out@);
            out.push(nodes[i].connection_type.clone());
            assert(texts_view(out@) =~= before.push(all[i as int].connection_type));
        }
        i += 1;
    }
    out
}

/// Whether `block` has the data ports that `kind` declares.
pub fn ports_match_in<B: ExecutionBlock>(kind: &B, block: &Block) -> (r: bool)
    ensures
        kind.modelled() ==> r == ports_match(*kind, block@),
{
    let category = kind.get_type();
    let mut k: usize = 0;
    while k < block.nodes.len()
        invariant
            k <= block.nodes@.len(),
            kind.modelled() ==> category == kind.category(),
            forall|j: int| 0 <= j < k ==> !out_of_place(category, #[trigger] block@.nodes[j]),
        decreases block.nodes@.len() - k,
    {
        let node = &block.nodes[k];
        assert(block@.nodes[k as int] == node@);
        let execution = same_text(node.connection_type.as_str(), "Execution");
        let misplaced = match category {
            ExecutionBlockType::Static => execution,
            ExecutionBlockType::Start => matches!(node.node_type, NodeType::Input) && execution,
            ExecutionBlockType::Normal => false,
        };
        if misplaced {
            return false;
        }
        k += 1;
    }
    let found = input_types_of(&block.nodes);
    let declared = kind.get_inputs();
    if !same_texts(&found, &declared) {
        return false;
    }
    let outputs = kind.get_outputs();
    let mut i: usize = 0;
    while i < outputs.len()
        invariant
            i <= outputs@.len(),
            kind.modelled() ==> texts_view(outputs@) == kind.outputs(),
            kind.modelled() ==> input_types(block@.nodes, block@.nodes.len()) == kind.inputs(),
            kind.modelled() ==> forall|j: int|
                0 <= j < block@.nodes.len() ==> !out_of_place(
                    kind.category(),
                    #[trigger] block@.nodes[j],
                ),
            kind.modelled() ==> forall|j: int|
                0 <= j < i ==> offers(block@.nodes, output_port(j), #[trigger] kind.outputs()[j]),
        decreases outputs@.len() - i,
    {
        if i > 0x7fff_fffe {
            proof {
                if kind.modelled() {
                    lemma_first_index_none(block@.nodes, has_port(output_port(i as int)));
                    assert(!offers(block@.nodes, output_port(i as int), kind.outputs()[i as int]));
                }
            }
            return false;
        }
        let port: u64 = 3 + 2 * (i as u64);
        let ok = match find_port(&block.nodes, port) {
            Some(node) => matches!(node.node_type, NodeType::Output) && same_text(
                node.connection_type.as_str(),
                outputs[i].as_str(),
            ),
            None => false,
        };
        assert(texts_view(outputs@)[i as int] == outputs@[i as int]@);
        if !ok {
            assert(kind.modelled() ==> !offers(
                block@.nodes,
                output_port(i as int),
                kind.outputs()[i as int],
            ));
            return false;
        }
        i += 1;
    }
    true
}

/// What is wrong with `block`, if anything.
#[verifier::loop_isolation(false)]
pub fn find_block_fault<B: ExecutionBlock>(logic: &Logic<B>, code: &Vec<Block>, block: &Block) -> (r:
    Option<Error>)
    ensures
        all_described(logic.blocks@) ==> fault_view(r) == block_fault(world_of(logic, code), block@),
{
    let ghost world = world_of(logic, code);
    let ghost nodes = block@.nodes;
    let kind = match logic.get_block(block.block_type_id) {
        Some(kind) => kind,
        None => {
            return Some(Error::TypeUnknown(TypeRef::Block(block.block_type_id)));
        },
    };
    let mut i: usize = 0;
    while i < block.nodes.len()
        invariant
            i <= block.nodes@.len(),
            nodes == nodes_view(block.nodes@),
            world == world_of(logic, code),
            forall|j: int| 0 <= j < i ==> find_type(world.types, nodes[j].connection_type) is Some,
        decreases block.nodes@.len() - i,
    {
        assert(nodes[i as int] == block.nodes@[i as int]@);
        if !logic.has_type(block.nodes[i].connection_type.as_str()) {
            proof {
                lemma_first_index_is(nodes, is_untyped(world.types), i as int);
            }
            return Some(
                Error::TypeUnknown(TypeRef::Connection(block.nodes[i].connection_type.clone())),
            );
        }
        i += 1;
    }
    proof {
        lemma_first_index_none(nodes, is_untyped(world.types));
    }
    if !ports_match_in(kind, block) {
        return Some(Error::GraphInvalid(Reason::Ports { block: block.block_id }));
    }
    let mut i: usize = 0;
    while i < block.nodes.len()
        invariant
            i <= block.nodes@.len(),
            nodes == nodes_view(block.nodes@),
            world == world_of(logic, code),
            forall|j: int| 0 <= j < i ==> edge_holds(world.graph, block.block_id, nodes[j]),
        decreases block.nodes@.len() - i,
    {
        assert(nodes[i as int] == block.nodes@[i as int]@);
        if !edge_holds_in(code, block.block_id, &block.nodes[i]) {
            proof {
                lemma_first_index_is(nodes, is_loose(world.graph, block.block_id), i as int);
            }
            return Some(
                Error::GraphInvalid(Reason::Edge { block: block.block_id, node: block.nodes[i].id }),
            );
        }
        i += 1;
    }
    proof {
        lemma_first_index_none(nodes, is_loose(world.graph, block.block_id));
    }
    None
}

/// Whether `block` is of a start kind.
pub fn starts_in<B: ExecutionBlock>(logic: &Logic<B>, block: &Block) -> (r: bool)
    ensures
        all_described(logic.blocks@) ==> r == starts(logic.blocks@, block@),
{
    match logic.get_block(block.block_type_id) {
        Some(kind) => kind.get_type() == ExecutionBlockType::Start,
        None => false,
    }
}

/// Why the program `code` may not run, if it may not.
#[verifier::loop_isolation(false)]
pub fn find_fault<B: ExecutionBlock>(logic: &Logic<B>, code: &Vec<Block>) -> (r: Option<Error>)
    ensures
        all_described(logic.blocks@) ==> fault_view(r) == fault(world_of(logic, code)),
{
    let ghost world = world_of(logic, code);
    let ghost graph = world.graph;
    match find_repeat(code) {
        Some(id) => {
            return Some(Error::GraphInvalid(Reason::DuplicateBlock { block: id }));
        },
        None => {},
    }
    let start_kinds = logic.get_blocks_by_type(ExecutionBlockType::Start);
    assert(start_kinds@.map_values(|b: &B| *b).len() == start_kinds@.len());
    if start_kinds.len() > 1 {
        return Some(Error::GraphInvalid(Reason::SeveralStartKinds));
    }
    let ghost described = all_described(logic.blocks@);
    let mut i: usize = 0;
    while i < code.len()
        invariant
            i <= code@.len(),
            world == world_of(logic, code),
            graph == world.graph,
            described ==> forall|j: int| 0 <= j < i ==> block_fault(world, graph[j]) is None,
        decreases code@.len() - i,
    {
        assert(graph[i as int] == code@[i as int]@);
        match find_block_fault(logic, code, &code[i]) {
            Some(e) => {
                proof {
                    if described {
                        lemma_first_index_is(graph, is_faulty(world), i as int);
                    }
                }
                return Some(e);
            },
            None => {},
        }
        i += 1;
    }
    proof {
        if described {
            lemma_first_index_none(graph, is_faulty(world));
        }
    }
    let mut seen: Option<usize> = None;
    let mut i: usize = 0;
    while i < code.len()
        invariant
            i <= code@.len(),
            world == world_of(logic, code),
            graph == world.graph,
            described ==> match seen {
                Some(a) => a < i && starts(world.kinds, graph[a as int]) && forall|j: int|
                    0 <= j < i && j != a ==> !starts(world.kinds, #[trigger] graph[j]),
                None => forall|j: int| 0 <= j < i ==> !starts(world.kinds, #[trigger] graph[j]),
            },
        decreases code@.len() - i,
    {
        assert(graph[i as int] == code@[i as int]@);
        if starts_in(logic, &code[i]) {
            match seen {
                Some(a) => {
                    proof {
                        if described {
                            assert(starts(world.kinds, graph[a as int]) && starts(
                                world.kinds,
                                graph[i as int],
                            ));
                            assert(several_starts(world.kinds, graph));
                        }
                    }
                    return Some(Error::GraphInvalid(Reason::SeveralStartBlocks));
                },
                None => {
                    seen = Some(i);
                },
            }
        }
        i += 1;
    }
    match find_start_block(logic, code) {
        Some(found) => if chain_ends_in(code, found.1) {
            None
        } else {
            Some(Error::GraphInvalid(Reason::ExecutionCycle))
        },
        None => None,
    }
}

/// Whether following the execution edges from the block `block_id` on comes
/// to an end before it has made as many steps as there are blocks.
pub fn chain_ends_in(code: &Vec<Block>, block_id: u32) -> (r: bool)
    ensures
        r == chain_ends(blocks_view(code@), block_id, max_steps(code@.len())),
{
    let ghost graph = blocks_view(code@);
    let mut current = block_id;
    let mut more: usize = if code.len() == 0 {
        0
    } else {
        code.len() - 1
    };
    loop
        invariant
            graph == blocks_view(code@),
            chain_ends(graph, block_id, max_steps(code@.len())) == chain_ends(
                graph,
                current,
                more as nat,
            ),
        decreases more,
    {
        let next = match get_block(code, current) {
            Some(block) => block.successor(),
            None => None,
        };
        match next {
            None => {
                return true;
            },
            Some(next) => {
                if more == 0 {
                    return get_block(code, next).is_none();
                }
                more = more - 1;
                current = next;
            },
        }
    }
}

/// The first block of a start kind: its position, its id and the id of its kind.
pub fn find_start_block<B: ExecutionBlock>(logic: &Logic<B>, code: &Vec<Block>) -> (r: Option<
    (usize, u32, u32),
>)
    ensures
        r matches Some(found) ==> found.0 < code@.len() && code@[found.0 as int].block_id
            == found.1 && code@[found.0 as int].block_type_id == found.2,
        all_described(logic.blocks@) ==> match r {
            Some(found) => first_index(blocks_view(code@), is_start(logic.blocks@)) == Some(
                found.0 as int,
            ) && first_match(blocks_view(code@), is_start(logic.blocks@)) == Some(
                code@[found.0 as int]@,
            ) && starts(logic.blocks@, code@[found.0 as int]@) && forall|j: int|
                0 <= j < found.0 ==> !starts(logic.blocks@, #[trigger] code@[j]@),
            None => first_match(blocks_view(code@), is_start(logic.blocks@)) is None
                && forall|j: int| 0 <= j < code@.len() ==> !starts(logic.blocks@, #[trigger] code@[j]@),
        },
{
    let ghost graph = blocks_view(code@);
    let mut i: usize = 0;
    while i < code.len()
        invariant
            i <= code@.len(),
            graph == blocks_view(code@),
            all_described(logic.blocks@) ==> forall|j: int|
                0 <= j < i ==> !starts(logic.blocks@, graph[j]),
        decreases code@.len() - i,
    {
        assert(graph[i as int] == code@[i as int]@);
        if starts_in(logic, &code[i]) {
            proof {
                if all_described(logic.blocks@) {
                    lemma_first_index_is(graph, is_start(logic.blocks@), i as int);
                    assert forall|j: int| 0 <= j < i implies !starts(
                        logic.blocks@,
                        #[trigger] code@[j]@,
                    ) by {
                        assert(graph[j] == code@[j]@);
                    }
                }
            }
            return Some((i, code[i].block_id, code[i].block_type_id));
        }
        i += 1;
    }
    proof {
        if all_described(logic.blocks@) {
            lemma_first_index_none(graph, is_start(logic.blocks@));
            assert forall|j: int| 0 <= j < code@.len() implies !starts(
                logic.blocks@,
                #[trigger] code@[j]@,
            ) by {
                assert(graph[j] == code@[j]@);
            }
        }
    }
    None
}

} // verus!

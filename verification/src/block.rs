//! A loaded program: blocks, their ports, and the edges stored on the ports.

use crate::json::{Json, JsonView};
use crate::search::first_match;
use vstd::prelude::*;

verus! {

/// The direction of a port.
#[derive(Debug, Clone, Copy, PartialEq, Eq, Structural)]
pub enum NodeType {
    Input,
    Output,
}

/// A port of a block. The three `connected_*` fields hold the edge that ends
/// at this port: there is an edge exactly if all three are set.
#[derive(Debug, PartialEq, Eq)]
pub struct Node {
    pub id: u32,
    pub node_type: NodeType,
    pub connection_type: String,
    pub value: Json,
    pub connected_block_type_id: Option<u32>,
    pub connected_block_id: Option<u32>,
    pub connected_node_id: Option<u32>,
}

/// The mathematical value of a `Node`.
pub struct NodeView {
    pub id: u32,
    pub node_type: NodeType,
    pub connection_type: Seq<char>,
    pub value: JsonView,
    pub connected_block_type_id: Option<u32>,
    pub connected_block_id: Option<u32>,
    pub connected_node_id: Option<u32>,
}

/// The other end of an edge: the block, its kind, and the port on it.
#[derive(Debug, Clone, Copy, PartialEq, Eq, Structural)]
pub struct Edge {
    pub block_id: u32,
    pub block_type_id: u32,
    pub node_id: u32,
}

impl View for Node {
    type V = NodeView;

    open spec fn view(&self) -> NodeView {
        NodeView {
            id: self.id,
            node_type: self.node_type,
            connection_type: self.connection_type@,
            value: self.value@,
            connected_block_type_id: self.connected_block_type_id,
            connected_block_id: self.connected_block_id,
            connected_node_id: self.connected_node_id,
        }
    }
}

impl NodeView {
    /// The edge that ends at this port, if there is one.
    pub open spec fn edge(self) -> Option<Edge> {
        if self.connected_block_id is Some && self.connected_node_id is Some
            && self.connected_block_type_id is Some {
            Some(
                Edge {
                    block_id: self.connected_block_id->0,
                    block_type_id: self.connected_block_type_id->0,
                    node_id: self.connected_node_id->0,
                },
            )
        } else {
            None
        }
    }

    /// Whether values arrive at this port: an input that is no execution port.
    pub open spec fn is_data_input(self) -> bool {
        self.node_type == NodeType::Input && self.connection_type != "Execution"@
    }

    /// Whether execution leaves the block through this port.
    pub open spec fn is_execution_output(self) -> bool {
        self.node_type == NodeType::Output && self.connection_type == "Execution"@
    }
}

/// A block of a program: an instance of the kind `block_type_id`.
#[derive(Debug, PartialEq, Eq)]
pub struct Block {
    pub block_id: u32,
    pub block_type_id: u32,
    pub nodes: Vec<Node>,
}

/// The mathematical value of a `Block`.
pub struct BlockView {
    pub block_id: u32,
    pub block_type_id: u32,
    pub nodes: Seq<NodeView>,
}

/// The views of the ports in `nodes`, in order.
pub open spec fn nodes_view(nodes: Seq<Node>) -> Seq<NodeView> {
    Seq::new(nodes.len(), |i: int| nodes[i]@)
}

/// The views of the blocks in `blocks`, in order.
pub open spec fn blocks_view(blocks: Seq<Block>) -> Seq<BlockView> {
    Seq::new(blocks.len(), |i: int| blocks[i]@)
}

impl View for Block {
    type V = BlockView;

    open spec fn view(&self) -> BlockView {
        BlockView {
            block_id: self.block_id,
            block_type_id: self.block_type_id,
            nodes: nodes_view(self.nodes@),
        }
    }
}

/// The condition that a block has the id `id`.
pub open spec fn has_id(id: u32) -> spec_fn(BlockView) -> bool {
    |b: BlockView| b.block_id == id
}

/// The condition that execution leaves through a port.
pub open spec fn leads_on() -> spec_fn(NodeView) -> bool {
    |n: NodeView| n.is_execution_output()
}

/// The first block of `graph` with the id `id`.
pub open spec fn find_block(graph: Seq<BlockView>, id: u32) -> Option<BlockView> {
    first_match(graph, has_id(id))
}

/// The first port of `nodes` through which execution leaves.
pub open spec fn execution_output(nodes: Seq<NodeView>) -> Option<NodeView> {
    first_match(nodes, leads_on())
}

impl BlockView {
    /// The block that runs after this one: the one at the other end of the
    /// edge of the first execution output, if that has an edge.
    pub open spec fn successor(self) -> Option<u32> {
        match execution_output(self.nodes) {
            Some(node) => match node.edge() {
                Some(edge) => Some(edge.block_id),
                None => None,
            },
            None => None,
        }
    }
}

impl Node {
    /// Whether values arrive at this port.
    pub fn is_data_input(&self) -> (r: bool)
        ensures
            r == self@.is_data_input(),
    {
        matches!(self.node_type, NodeType::Input) && !crate::text::same_text(
            self.connection_type.as_str(),
            "Execution",
        )
    }

    /// Whether execution leaves the block through this port.
    pub fn is_execution_output(&self) -> (r: bool)
        ensures
            r == self@.is_execution_output(),
    {
        matches!(self.node_type, NodeType::Output) && crate::text::same_text(
            self.connection_type.as_str(),
            "Execution",
        )
    }

    /// The edge that ends at this port, if there is one.
    pub fn edge(&self) -> (r: Option<Edge>)
        ensures
            r == self@.edge(),
    {
        match (self.connected_block_id, self.connected_node_id, self.connected_block_type_id) {
            (Some(block_id), Some(node_id), Some(block_type_id)) => Some(
                Edge { block_id, block_type_id, node_id },
            ),
            _ => None,
        }
    }
}

impl Block {
    /// The block that runs after this one.
    pub fn successor(&self) -> (r: Option<u32>)
        ensures
            r == self@.successor(),
    {
        let ghost nodes = self@.nodes;
        let mut i: usize = 0;
        while i < self.nodes.len()
            invariant
                i <= self.nodes@.len(),
                nodes == nodes_view(self.nodes@),
                forall|j: int| 0 <= j < i ==> !nodes[j].is_execution_output(),
            decreases self.nodes@.len() - i,
        {
            if self.nodes[i].is_execution_output() {
                proof {
                    assert(nodes[i as int] == self.nodes@[i as int]@);
                    crate::search::lemma_first_index_is(nodes, leads_on(), i as int);
                }
                return match self.nodes[i].edge() {
                    Some(edge) => Some(edge.block_id),
                    None => None,
                };
            }
            i += 1;
        }
        proof {
            crate::search::lemma_first_index_none(nodes, leads_on());
        }
        None
    }
}

/// The first block of `code` with the id `id`.
pub fn get_block(code: &Vec<Block>, id: u32) -> (r: Option<&Block>)
    ensures
        match r {
            Some(block) => find_block(blocks_view(code@), id) == Some(block@),
            None => find_block(blocks_view(code@), id) is None,
        },
{
    let ghost graph = blocks_view(code@);
    let mut i: usize = 0;
    while i < code.len()
        invariant
            i <= code@.len(),
            graph == blocks_view(code@),
            forall|j: int| 0 <= j < i ==> graph[j].block_id != id,
        decreases code@.len() - i,
    {
        if code[i].block_id == id {
            proof {
                assert(graph[i as int] == code@[i as int]@);
                crate::search::lemma_first_index_is(graph, has_id(id), i as int);
            }
            return Some(&code[i]);
        }
        i += 1;
    }
    proof {
        crate::search::lemma_first_index_none(graph, has_id(id));
    }
    None
}

} // verus!

//! The wire format of a program: an array of blocks, each an object with
//! `blockId`, `blockTypeId` and `nodes`; each node an object with `id`,
//! `nodeType`, `connectionType`, `value` and the three `connected*` fields
//! that hold the edge, or null.

use crate::block::{blocks_view, nodes_view, Block, BlockView, Node, NodeType, NodeView};
use crate::error::{Error, ErrorView, Reason};
use crate::json::{lemma_first_field_at, Json, JsonView};
use crate::text::same_text;
use vstd::prelude::*;

verus! {

/// The number that `json` holds, if it is one that fits a `u32`.
pub open spec fn decode_u32(json: JsonView) -> Option<u32> {
    match json {
        JsonView::Integer(i) => if 0 <= i <= u32::MAX {
            Some(i as u32)
        } else {
            None
        },
        _ => None,
    }
}

/// One part of an edge: nothing where the field is absent or null, the
/// number where it holds one. Anything else is refused.
pub open spec fn decode_link(field: Option<JsonView>) -> Option<Option<u32>> {
    match field {
        None => Some(None),
        Some(JsonView::Null) => Some(None),
        Some(json) => match decode_u32(json) {
            Some(v) => Some(Some(v)),
            None => None,
        },
    }
}

/// The direction that `json` names.
pub open spec fn decode_direction(json: JsonView) -> Option<NodeType> {
    match json {
        JsonView::Text(t) => if t == "input"@ {
            Some(NodeType::Input)
        } else if t == "output"@ {
            Some(NodeType::Output)
        } else {
            None
        },
        _ => None,
    }
}

/// The text that `json` holds, if it is a string.
pub open spec fn decode_text(json: JsonView) -> Option<Seq<char>> {
    match json {
        JsonView::Text(t) => Some(t),
        _ => None,
    }
}

/// The number in the field `key` of `json`.
pub open spec fn decode_u32_field(json: JsonView, key: Seq<char>) -> Option<u32> {
    match json.field(key) {
        Some(j) => decode_u32(j),
        None => None,
    }
}

/// The port that `json` describes.
pub open spec fn decode_node(json: JsonView) -> Option<NodeView> {
    let id = decode_u32_field(json, "id"@);
    let direction = match json.field("nodeType"@) {
        Some(j) => decode_direction(j),
        None => None,
    };
    let connection = match json.field("connectionType"@) {
        Some(j) => decode_text(j),
        None => None,
    };
    let value = json.field("value"@);
    let block = decode_link(json.field("connectedBlockId"@));
    let kind = decode_link(json.field("connectedBlockTypeId"@));
    let node = decode_link(json.field("connectedNodeId"@));
    if id is Some && direction is Some && connection is Some && value is Some && block is Some
        && kind is Some && node is Some {
        Some(
            NodeView {
                id: id->0,
                node_type: direction->0,
                connection_type: connection->0,
                value: value->0,
                connected_block_type_id: kind->0,
                connected_block_id: block->0,
                connected_node_id: node->0,
            },
        )
    } else {
        None
    }
}

/// The ports that the array `json` describes.
pub open spec fn decode_nodes(json: JsonView) -> Option<Seq<NodeView>> {
    match json {
        JsonView::Array(items) => if forall|i: int|
            0 <= i < items.len() ==> decode_node(#[trigger] items[i]) is Some {
            Some(Seq::new(items.len(), |i: int| decode_node(items[i])->0))
        } else {
            None
        },
        _ => None,
    }
}

/// The block that `json` describes.
pub open spec fn decode_block(json: JsonView) -> Option<BlockView> {
    let id = decode_u32_field(json, "blockId"@);
    let kind = decode_u32_field(json, "blockTypeId"@);
    let nodes = match json.field("nodes"@) {
        Some(j) => decode_nodes(j),
        None => None,
    };
    if id is Some && kind is Some && nodes is Some {
        Some(BlockView { block_id: id->0, block_type_id: kind->0, nodes: nodes->0 })
    } else {
        None
    }
}

/// The program that the array `json` describes.
pub open spec fn decode_program(json: JsonView) -> Option<Seq<BlockView>> {
    match json {
        JsonView::Array(items) => if forall|i: int|
            0 <= i < items.len() ==> decode_block(#[trigger] items[i]) is Some {
            Some(Seq::new(items.len(), |i: int| decode_block(items[i])->0))
        } else {
            None
        },
        _ => None,
    }
}

fn u32_of(json: &Json) -> (r: Option<u32>)
    ensures
        r == decode_u32(json@),
{
    match json {
        Json::Integer(i) => if 0 <= *i && *i <= 0xffff_ffff {
            Some(*i as u32)
        } else {
            None
        },
        _ => None,
    }
}

fn u32_field(json: &Json, key: &str) -> (r: Option<u32>)
    ensures
        r == decode_u32_field(json@, key@),
{
    match json.field(key) {
        Some(j) => u32_of(j),
        None => None,
    }
}

fn link_field(json: &Json, key: &str) -> (r: Option<Option<u32>>)
    ensures
        r == decode_link(json@.field(key@)),
{
    match json.field(key) {
        None => Some(None),
        Some(Json::Null) => Some(None),
        Some(j) => match u32_of(j) {
            Some(v) => Some(Some(v)),
            None => None,
        },
    }
}

fn direction_of(json: &Json) -> (r: Option<NodeType>)
    ensures
        r == decode_direction(json@),
{
    match json {
        Json::Text(t) => if same_text(t.as_str(), "input") {
            Some(NodeType::Input)
        } else if same_text(t.as_str(), "output") {
            Some(NodeType::Output)
        } else {
            None
        },
        _ => None,
    }
}

/// Reads a port from its JSON object.
pub fn node_from_json(json: &Json) -> (r: Option<Node>)
    ensures
        match r {
            Some(node) => decode_node(json@) == Some(node@),
            None => decode_node(json@) is None,
        },
{
    let id = match u32_field(json, "id") {
        Some(v) => v,
        None => {
            return None;
        },
    };
    let node_type = match json.field("nodeType") {
        Some(j) => match direction_of(j) {
            Some(d) => d,
            None => {
                return None;
            },
        },
        None => {
            return None;
        },
    };
    let connection_type = match json.field("connectionType") {
        Some(Json::Text(t)) => t.clone(),
        _ => {
            return None;
        },
    };
    let value = match json.field("value") {
        Some(j) => j.duplicate(),
        None => {
            return None;
        },
    };
    let connected_block_id = match link_field(json, "connectedBlockId") {
        Some(v) => v,
        None => {
            return None;
        },
    };
    let connected_block_type_id = match link_field(json, "connectedBlockTypeId") {
        Some(v) => v,
        None => {
            return None;
        },
    };
    let connected_node_id = match link_field(json, "connectedNodeId") {
        Some(v) => v,
        None => {
            return None;
        },
    };
    Some(
        Node {
            id,
            node_type,
            connection_type,
            value,
            connected_block_type_id,
            connected_block_id,
            connected_node_id,
        },
    )
}

/// Reads the ports of a block from their JSON array.
pub fn nodes_from_json(json: &Json) -> (r: Option<Vec<Node>>)
    ensures
        match r {
            Some(nodes) => decode_nodes(json@) == Some(nodes_view(nodes@)),
            None => decode_nodes(json@) is None,
        },
{
    match json {
        Json::Array(items) => {
            let ghost all = json@->Array_0;
            let mut out: Vec<Node> = Vec::new();
            let mut i: usize = 0;
            while i < items.len()
                invariant
                    i <= items@.len(),
                    out@.len() == i,
                    json@ == JsonView::Array(all),
                    all.len() == items@.len(),
                    forall|j: int| 0 <= j < all.len() ==> all[j] == items@[j]@,
                    forall|j: int| 0 <= j < i ==> decode_node(all[j]) == Some(out@[j]@),
                decreases items@.len() - i,
            {
                match node_from_json(&items[i]) {
                    Some(node) => {
                        out.push(node);
                    },
                    None => {
                        assert(decode_node(all[i as int]) is None);
                        return None;
                    },
                }
                i += 1;
            }
            assert(decode_nodes(json@)->0 =~= nodes_view(out@));
            Some(out)
        },
        _ => None,
    }
}

/// Reads a block from its JSON object.
pub fn block_from_json(json: &Json) -> (r: Option<Block>)
    ensures
        match r {
            Some(block) => decode_block(json@) == Some(block@),
            None => decode_block(json@) is None,
        },
{
    let block_id = match u32_field(json, "blockId") {
        Some(v) => v,
        None => {
            return None;
        },
    };
    let block_type_id = match u32_field(json, "blockTypeId") {
        Some(v) => v,
        None => {
            return None;
        },
    };
    let nodes = match json.field("nodes") {
        Some(j) => match nodes_from_json(j) {
            Some(nodes) => nodes,
            None => {
                return None;
            },
        },
        None => {
            return None;
        },
    };
    Some(Block { block_id, block_type_id, nodes })
}

/// What loading makes of a document: the program that it describes, or the
/// error that it has not the shape of one.
pub open spec fn decoded(json: JsonView) -> Result<Seq<BlockView>, ErrorView> {
    match decode_program(json) {
        Some(graph) => Ok(graph),
        None => Err(ErrorView::GraphInvalid(Reason::Shape)),
    }
}

/// The view of what loading returned.
pub open spec fn loaded_view(r: Result<Vec<Block>, Error>) -> Result<Seq<BlockView>, ErrorView> {
    match r {
        Ok(code) => Ok(blocks_view(code@)),
        Err(e) => Err(e@),
    }
}

/// Reads a program from its JSON array.
pub fn decode(json: &Json) -> (r: Result<Vec<Block>, Error>)
    ensures
        loaded_view(r) == decoded(json@),
{
    match json {
        Json::Array(items) => {
            let ghost all = json@->Array_0;
            let mut out: Vec<Block> = Vec::new();
            let mut i: usize = 0;
            while i < items.len()
                invariant
                    i <= items@.len(),
                    out@.len() == i,
                    json@ == JsonView::Array(all),
                    all.len() == items@.len(),
                    forall|j: int| 0 <= j < all.len() ==> all[j] == items@[j]@,
                    forall|j: int| 0 <= j < i ==> decode_block(all[j]) == Some(out@[j]@),
                decreases items@.len() - i,
            {
                match block_from_json(&items[i]) {
                    Some(block) => {
                        out.push(block);
                    },
                    None => {
                        assert(decode_block(all[i as int]) is None);
                        return Err(Error::GraphInvalid(Reason::Shape));
                    },
                }
                i += 1;
            }
            assert(decode_program(json@)->0 =~= blocks_view(out@));
            Ok(out)
        },
        _ => Err(Error::GraphInvalid(Reason::Shape)),
    }
}

/// The JSON of one part of an edge.
pub open spec fn encode_link(link: Option<u32>) -> JsonView {
    match link {
        Some(v) => JsonView::Integer(v as i64),
        None => JsonView::Null,
    }
}

/// The name of a direction on the wire.
pub open spec fn direction_text(direction: NodeType) -> Seq<char> {
    match direction {
        NodeType::Input => "input"@,
        NodeType::Output => "output"@,
    }
}

/// The JSON object of a port.
pub open spec fn encode_node(node: NodeView) -> JsonView {
    JsonView::Object(
        seq![
            ("id"@, JsonView::Integer(node.id as i64)),
            ("nodeType"@, JsonView::Text(direction_text(node.node_type))),
            ("connectionType"@, JsonView::Text(node.connection_type)),
            ("value"@, node.value),
            ("connectedBlockId"@, encode_link(node.connected_block_id)),
            ("connectedBlockTypeId"@, encode_link(node.connected_block_type_id)),
            ("connectedNodeId"@, encode_link(node.connected_node_id)),
        ],
    )
}

/// The JSON array of the ports of a block.
pub open spec fn encode_nodes(nodes: Seq<NodeView>) -> JsonView {
    JsonView::Array(Seq::new(nodes.len(), |i: int| encode_node(nodes[i])))
}

/// The JSON object of a block.
pub open spec fn encode_block(block: BlockView) -> JsonView {
    JsonView::Object(
        seq![
            ("blockId"@, JsonView::Integer(block.block_id as i64)),
            ("blockTypeId"@, JsonView::Integer(block.block_type_id as i64)),
            ("nodes"@, encode_nodes(block.nodes)),
        ],
    )
}

/// The JSON array of a program.
pub open spec fn encode_program(graph: Seq<BlockView>) -> JsonView {
    JsonView::Array(Seq::new(graph.len(), |i: int| encode_block(graph[i])))
}

fn link_to_json(link: Option<u32>) -> (r: Json)
    ensures
        r@ == encode_link(link),
{
    match link {
        Some(v) => Json::Integer(v as i64),
        None => Json::Null,
    }
}

/// Writes a port as its JSON object.
pub fn node_to_json(node: &Node) -> (r: Json)
    ensures
        r@ == encode_node(node@),
{
    let direction = match node.node_type {
        NodeType::Input => "input".to_owned(),
        NodeType::Output => "output".to_owned(),
    };
    let mut fields: Vec<(String, Json)> = Vec::new();
    fields.push(("id".to_owned(), Json::Integer(node.id as i64)));
    fields.push(("nodeType".to_owned(), Json::Text(direction)));
    fields.push(("connectionType".to_owned(), Json::Text(node.connection_type.clone())));
    fields.push(("value".to_owned(), node.value.duplicate()));
    fields.push(("connectedBlockId".to_owned(), link_to_json(node.connected_block_id)));
    fields.push(("connectedBlockTypeId".to_owned(), link_to_json(node.connected_block_type_id)));
    fields.push(("connectedNodeId".to_owned(), link_to_json(node.connected_node_id)));
    let ghost want = encode_node(node@)->Object_0;
    assert(fields@.len() == 7);
    assert(forall|j: int| 0 <= j < 7 ==> (fields@[j].0@, fields@[j].1@) == want[j]);
    let r = Json::Object(fields);
    assert(r@->Object_0 =~= want);
    r
}

/// Writes a block as its JSON object.
pub fn block_to_json(block: &Block) -> (r: Json)
    ensures
        r@ == encode_block(block@),
{
    let mut nodes: Vec<Json> = Vec::new();
    let mut i: usize = 0;
    while i < block.nodes.len()
        invariant
            i <= block.nodes@.len(),
            nodes@.len() == i,
            forall|j: int| 0 <= j < i ==> nodes@[j]@ == encode_node(block.nodes@[j]@),
        decreases block.nodes@.len() - i,
    {
        nodes.push(node_to_json(&block.nodes[i]));
        i += 1;
    }
    let list = Json::Array(nodes);
    assert(list@->Array_0 =~= encode_nodes(block@.nodes)->Array_0);
    let mut fields: Vec<(String, Json)> = Vec::new();
    fields.push(("blockId".to_owned(), Json::Integer(block.block_id as i64)));
    fields.push(("blockTypeId".to_owned(), Json::Integer(block.block_type_id as i64)));
    fields.push(("nodes".to_owned(), list));
    let ghost want = encode_block(block@)->Object_0;
    assert(fields@.len() == 3);
    assert(forall|j: int| 0 <= j < 3 ==> (fields@[j].0@, fields@[j].1@) == want[j]);
    let r = Json::Object(fields);
    assert(r@->Object_0 =~= want);
    r
}

/// Writes a program as its JSON array.
pub fn encode(code: &Vec<Block>) -> (r: Json)
    ensures
        r@ == encode_program(blocks_view(code@)),
{
    let mut blocks: Vec<Json> = Vec::new();
    let mut i: usize = 0;
    while i < code.len()
        invariant
            i <= code@.len(),
            blocks@.len() == i,
            forall|j: int| 0 <= j < i ==> blocks@[j]@ == encode_block(code@[j]@),
        decreases code@.len() - i,
    {
        blocks.push(block_to_json(&code[i]));
        i += 1;
    }
    let r = Json::Array(blocks);
    assert(r@->Array_0 =~= encode_program(blocks_view(code@))->Array_0);
    r
}

/// Reading what was written for a port gives the port back.
pub proof fn lemma_node_round_trip(node: NodeView)
    ensures
        decode_node(encode_node(node)) == Some(node),
{
    reveal_strlit("id");
    reveal_strlit("nodeType");
    reveal_strlit("connectionType");
    reveal_strlit("value");
    reveal_strlit("connectedBlockId");
    reveal_strlit("connectedBlockTypeId");
    reveal_strlit("connectedNodeId");
    reveal_strlit("input");
    reveal_strlit("output");
    let json = encode_node(node);
    let fields = json->Object_0;
    assert("id"@.len() == 2);
    assert("nodeType"@.len() == 8);
    assert("connectionType"@.len() == 14);
    assert("value"@.len() == 5);
    assert("connectedBlockId"@.len() == 16);
    assert("connectedBlockTypeId"@.len() == 20);
    assert("connectedNodeId"@.len() == 15);
    lemma_first_field_at(fields, "id"@, 0);
    lemma_first_field_at(fields, "nodeType"@, 1);
    lemma_first_field_at(fields, "connectionType"@, 2);
    lemma_first_field_at(fields, "value"@, 3);
    lemma_first_field_at(fields, "connectedBlockId"@, 4);
    lemma_first_field_at(fields, "connectedBlockTypeId"@, 5);
    lemma_first_field_at(fields, "connectedNodeId"@, 6);
    assert("input"@.len() == 5);
    assert("output"@.len() == 6);
}

/// Reading what was written for a block gives the block back.
pub proof fn lemma_block_round_trip(block: BlockView)
    ensures
        decode_block(encode_block(block)) == Some(block),
{
    reveal_strlit("blockId");
    reveal_strlit("blockTypeId");
    reveal_strlit("nodes");
    let json = encode_block(block);
    let fields = json->Object_0;
    assert("blockId"@.len() == 7);
    assert("blockTypeId"@.len() == 11);
    assert("nodes"@.len() == 5);
    lemma_first_field_at(fields, "blockId"@, 0);
    lemma_first_field_at(fields, "blockTypeId"@, 1);
    lemma_first_field_at(fields, "nodes"@, 2);
    let items = encode_nodes(block.nodes)->Array_0;
    assert forall|i: int| 0 <= i < items.len() implies decode_node(#[trigger] items[i]) == Some(
        block.nodes[i],
    ) by {
        lemma_node_round_trip(block.nodes[i]);
    }
    assert(decode_nodes(encode_nodes(block.nodes))->0 =~= block.nodes);
}

/// Writing a program and reading it again gives the program back: the
/// blocks, their ports and their edges are the same.
pub proof fn lemma_program_round_trip(graph: Seq<BlockView>)
    ensures
        decode_program(encode_program(graph)) == Some(graph),
{
    let items = encode_program(graph)->Array_0;
    assert forall|i: int| 0 <= i < items.len() implies decode_block(#[trigger] items[i]) == Some(
        graph[i],
    ) by {
        lemma_block_round_trip(graph[i]);
    }
    assert(decode_program(encode_program(graph))->0 =~= graph);
}

/// A program that was read is read again the same from what is written for it.
pub proof fn lemma_reload(json: JsonView)
    requires
        decode_program(json) is Some,
    ensures
        decode_program(encode_program(decode_program(json)->0)) == decode_program(json),
{
    lemma_program_round_trip(decode_program(json)->0);
}

} // verus!

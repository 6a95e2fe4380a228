use bme::block::{Block, Node, NodeType};
use bme::blocks::Builtin;
use bme::error::{Error, Reason, TypeRef};
use bme::executer::Executer;
use bme::json::{parse, print, Json};
use bme::logic::Logic;
use bme::wire::{decode, encode};

fn port(id: u32, direction: &str, kind: &str, value: &str, edge: Option<(u32, u32, u32)>) -> String {
    let (block, typ, node) = match edge {
        Some((block, typ, node)) => (block.to_string(), typ.to_string(), node.to_string()),
        None => ("null".to_string(), "null".to_string(), "null".to_string()),
    };
    format!(
        "{{\"id\":{},\"nodeType\":\"{}\",\"connectionType\":\"{}\",\"value\":{},\"connectedBlockId\":{},\"connectedBlockTypeId\":{},\"connectedNodeId\":{}}}",
        id, direction, kind, value, block, typ, node
    )
}

fn block(id: u32, kind: u32, ports: Vec<String>) -> String {
    format!("{{\"blockId\":{},\"blockTypeId\":{},\"nodes\":[{}]}}", id, kind, ports.join(","))
}

fn program(blocks: Vec<String>) -> String {
    format!("[{}]", blocks.join(","))
}

fn analyze(code: String) -> Result<(), Error> {
    Executer::<Builtin>::new(Logic::default(), code).analyze()
}

fn start(id: u32, next: Option<(u32, u32, u32)>) -> String {
    block(id, 1, vec![port(1, "output", "Execution", "null", next)])
}

fn print_block(id: u32, from: Option<(u32, u32, u32)>, next: Option<(u32, u32, u32)>) -> String {
    block(
        id,
        2,
        vec![
            port(0, "input", "Execution", "null", from),
            port(1, "output", "Execution", "null", next),
            port(2, "input", "String", "\"x\"", None),
        ],
    )
}

fn invalid(reason: Reason) -> Result<(), Error> {
    Err(Error::GraphInvalid(reason))
}

#[test]
fn decode_reads_blocks_ports_and_edges() {
    let json = parse(&program(vec![
        start(9, Some((10, 2, 0))),
        block(10, 2, vec![port(2, "input", "String", "\"lit\"", None)]),
    ]))
    .unwrap();
    let code = decode(&json).unwrap();
    assert_eq!(
        code,
        vec![
            Block {
                block_id: 9,
                block_type_id: 1,
                nodes: vec![Node {
                    id: 1,
                    node_type: NodeType::Output,
                    connection_type: "Execution".to_string(),
                    value: Json::Null,
                    connected_block_type_id: Some(2),
                    connected_block_id: Some(10),
                    connected_node_id: Some(0),
                }],
            },
            Block {
                block_id: 10,
                block_type_id: 2,
                nodes: vec![Node {
                    id: 2,
                    node_type: NodeType::Input,
                    connection_type: "String".to_string(),
                    value: Json::Text("lit".to_string()),
                    connected_block_type_id: None,
                    connected_block_id: None,
                    connected_node_id: None,
                }],
            },
        ]
    );
    assert_eq!(code[0].successor(), Some(10));
    assert_eq!(code[1].successor(), None);
}

#[test]
fn absent_edge_fields_read_as_no_edge() {
    let json = parse("[{\"blockId\":1,\"blockTypeId\":1,\"nodes\":[{\"id\":1,\"nodeType\":\"output\",\"connectionType\":\"Execution\",\"value\":null}]}]").unwrap();
    let code = decode(&json).unwrap();
    assert_eq!(code[0].nodes[0].edge(), None);
    assert_eq!(code[0].nodes[0].connected_block_id, None);
}

#[test]
fn what_has_not_the_shape_of_a_program_is_refused() {
    let shape = Err(Error::GraphInvalid(Reason::Shape));
    for text in [
        "{}",
        "[1]",
        "[{\"blockId\":1,\"nodes\":[]}]",
        "[{\"blockId\":-1,\"blockTypeId\":1,\"nodes\":[]}]",
        "[{\"blockId\":4294967296,\"blockTypeId\":1,\"nodes\":[]}]",
        "[{\"blockId\":1.5,\"blockTypeId\":1,\"nodes\":[]}]",
        "[{\"blockId\":1,\"blockTypeId\":1,\"nodes\":{}}]",
        "[{\"blockId\":1,\"blockTypeId\":1,\"nodes\":[{\"id\":1,\"nodeType\":\"sideways\",\"connectionType\":\"String\",\"value\":null}]}]",
        "[{\"blockId\":1,\"blockTypeId\":1,\"nodes\":[{\"id\":1,\"nodeType\":\"input\",\"connectionType\":\"String\"}]}]",
        "[{\"blockId\":1,\"blockTypeId\":1,\"nodes\":[{\"id\":1,\"nodeType\":\"input\",\"connectionType\":7,\"value\":null}]}]",
        "[{\"blockId\":1,\"blockTypeId\":1,\"nodes\":[{\"id\":1,\"nodeType\":\"input\",\"connectionType\":\"String\",\"value\":null,\"connectedBlockId\":\"2\"}]}]",
    ] {
        assert_eq!(decode(&parse(text).unwrap()), shape, "{}", text);
        assert_eq!(analyze(text.to_string()), Err(Error::GraphInvalid(Reason::Shape)), "{}", text);
    }
    assert_eq!(decode(&parse("[]").unwrap()), Ok(vec![]));
}

#[test]
fn text_that_is_no_json_is_refused_with_its_position() {
    assert_eq!(analyze("[{]".to_string()), invalid(Reason::Syntax { line: 1, column: 3 }));
}

#[test]
fn program_comes_back_from_what_is_written_for_it() {
    let text = program(vec![
        start(1, Some((2, 2, 0))),
        block(
            2,
            2,
            vec![
                port(0, "input", "Execution", "null", Some((1, 1, 1))),
                port(1, "output", "Execution", "null", None),
                port(2, "input", "String", "{\"deep\":[1,\"two\",3.5]}", None),
            ],
        ),
    ]);
    let code = decode(&parse(&text).unwrap()).unwrap();
    assert_eq!(decode(&encode(&code)), Ok(decode(&parse(&text).unwrap()).unwrap()));
    let written = print(&encode(&code));
    assert_eq!(decode(&parse(&written).unwrap()), Ok(code));
}

#[test]
fn written_program_has_the_fields_of_the_wire_format() {
    let code = vec![Block {
        block_id: 3,
        block_type_id: 2,
        nodes: vec![Node {
            id: 2,
            node_type: NodeType::Input,
            connection_type: "String".to_string(),
            value: Json::Text("v".to_string()),
            connected_block_type_id: None,
            connected_block_id: Some(8),
            connected_node_id: None,
        }],
    }];
    assert_eq!(
        print(&encode(&code)),
        "[{\"blockId\":3,\"blockTypeId\":2,\"nodes\":[{\"connectedBlockId\":8,\"connectedBlockTypeId\":null,\"connectedNodeId\":null,\"connectionType\":\"String\",\"id\":2,\"nodeType\":\"input\",\"value\":\"v\"}]}]"
    );
}

#[test]
fn valid_program_is_accepted_and_analysis_can_be_repeated() {
    let code = program(vec![start(1, Some((2, 2, 0))), print_block(2, Some((1, 1, 1)), None)]);
    let mut exe = Executer::<Builtin>::new(Logic::default(), code);
    assert_eq!(exe.analyze(), Ok(()));
    assert_eq!(exe.analyze(), Ok(()));
    assert_eq!(exe.get_code().len(), 2);
    exe.set_code("[]".to_string());
    assert_eq!(exe.analyze(), Ok(()));
    assert_eq!(exe.get_code().len(), 0);
    exe.set_code("nonsense".to_string());
    assert!(exe.analyze().is_err());
    assert_eq!(exe.get_code().len(), 0);
}

#[test]
fn program_that_is_refused_is_not_kept() {
    let good = program(vec![start(1, Some((2, 2, 0))), print_block(2, Some((1, 1, 1)), None)]);
    let mut exe = Executer::<Builtin>::new(Logic::default(), good);
    assert_eq!(exe.analyze(), Ok(()));
    assert_eq!(exe.get_code().len(), 2);
    exe.set_code(program(vec![start(1, None), start(2, None)]));
    assert_eq!(exe.get_code().len(), 0);
    assert_eq!(exe.analyze(), invalid(Reason::SeveralStartBlocks));
    assert_eq!(exe.get_code().len(), 0);
    assert_eq!(exe.execute(vec![]), invalid(Reason::SeveralStartBlocks));
    assert_eq!(exe.get_code().len(), 0);
    assert_eq!(exe.analyze(), invalid(Reason::SeveralStartBlocks));
}

#[test]
fn two_blocks_of_one_id_are_refused() {
    let code = program(vec![start(1, None), print_block(5, None, None), print_block(5, None, None)]);
    assert_eq!(analyze(code), invalid(Reason::DuplicateBlock { block: 5 }));
}

#[test]
fn unknown_kind_and_unknown_type_are_refused() {
    assert_eq!(
        analyze(program(vec![block(1, 999, vec![])])),
        Err(Error::TypeUnknown(TypeRef::Block(999)))
    );
    assert_eq!(
        analyze(program(vec![block(1, 1, vec![port(7, "output", "Colour", "null", None)])])),
        Err(Error::TypeUnknown(TypeRef::Connection("Colour".to_string())))
    );
}

#[test]
fn catalog_with_two_start_kinds_is_refused() {
    let mut logic: Logic<Builtin> = Logic::default();
    logic.add_block(Builtin::Start);
    let mut exe = Executer::new(logic, "[]".to_string());
    assert_eq!(exe.analyze(), invalid(Reason::SeveralStartKinds));
    assert_eq!(exe.execute(vec![]), invalid(Reason::SeveralStartKinds));
}

#[test]
fn two_start_blocks_are_refused() {
    let code = program(vec![start(1, None), start(2, None)]);
    assert_eq!(analyze(code), invalid(Reason::SeveralStartBlocks));
}

#[test]
fn block_without_the_ports_of_its_kind_is_refused() {
    let missing_input = block(2, 2, vec![port(1, "output", "Execution", "null", None)]);
    assert_eq!(analyze(program(vec![missing_input])), invalid(Reason::Ports { block: 2 }));
    let wrong_type = block(2, 2, vec![port(2, "input", "Integer", "1", None)]);
    assert_eq!(analyze(program(vec![wrong_type])), invalid(Reason::Ports { block: 2 }));
    let missing_output = block(3, 3, vec![port(2, "input", "String", "\"a\"", None)]);
    assert_eq!(analyze(program(vec![missing_output])), invalid(Reason::Ports { block: 3 }));
    let output_elsewhere = block(
        3,
        3,
        vec![port(2, "input", "String", "\"a\"", None), port(5, "output", "String", "null", None)],
    );
    assert_eq!(analyze(program(vec![output_elsewhere])), invalid(Reason::Ports { block: 3 }));
    let static_with_execution = block(
        3,
        3,
        vec![
            port(0, "input", "Execution", "null", None),
            port(2, "input", "String", "\"a\"", None),
            port(3, "output", "String", "null", None),
        ],
    );
    assert_eq!(analyze(program(vec![static_with_execution])), invalid(Reason::Ports { block: 3 }));
    let entered_start = block(1, 1, vec![port(0, "input", "Execution", "null", None)]);
    assert_eq!(analyze(program(vec![entered_start])), invalid(Reason::Ports { block: 1 }));
}

#[test]
fn edge_that_does_not_hold_is_refused() {
    let edge = |block: u32, node: u32| invalid(Reason::Edge { block, node });
    let to_nowhere = program(vec![start(1, Some((7, 2, 0)))]);
    assert_eq!(analyze(to_nowhere), edge(1, 1));
    let to_itself = program(vec![print_block(2, None, Some((2, 2, 0)))]);
    assert_eq!(analyze(to_itself), edge(2, 1));
    let of_another_kind = program(vec![start(1, Some((2, 3, 0))), print_block(2, None, None)]);
    assert_eq!(analyze(of_another_kind), edge(1, 1));
    let to_a_missing_port = program(vec![start(1, Some((2, 2, 9))), print_block(2, None, None)]);
    assert_eq!(analyze(to_a_missing_port), edge(1, 1));
    let to_the_same_direction = program(vec![start(1, Some((2, 2, 1))), print_block(2, None, None)]);
    assert_eq!(analyze(to_the_same_direction), edge(1, 1));
    let to_another_type = program(vec![start(1, Some((2, 2, 2))), print_block(2, None, None)]);
    assert_eq!(analyze(to_another_type), edge(1, 1));
}

#[test]
fn first_fault_in_the_order_of_the_checks_is_reported() {
    let code = program(vec![
        block(4, 999, vec![]),
        start(1, Some((7, 2, 0))),
        start(1, None),
    ]);
    assert_eq!(analyze(code), invalid(Reason::DuplicateBlock { block: 1 }));
    let code = program(vec![start(1, Some((7, 2, 0))), block(4, 999, vec![]), start(2, None)]);
    assert_eq!(analyze(code), invalid(Reason::Edge { block: 1, node: 1 }));
}

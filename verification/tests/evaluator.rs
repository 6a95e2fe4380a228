use bme::block::Block;
use bme::blocks::Builtin;
use bme::error::{Error, Reason, TypeRef};
use bme::evaluate::{exec_inputs, execute_block, find_mismatch, take_output, MAX_DEPTH};
use bme::executer::Executer;
use bme::json::parse;
use bme::logic::{Logic, Output};
use bme::register::{Register, RegisterFile};
use bme::types::ExecutionType;
use bme::wire::decode;

fn port(id: u32, direction: &str, kind: &str, value: &str, edge: Option<(u32, u32, u32)>) -> String {
    let (block, typ, node) = match edge {
        Some((block, typ, node)) => (block.to_string(), typ.to_string(), node.to_string()),
        None => ("null".to_string(), "null".to_string(), "null".to_string()),
    };
    format!(
        "{{\"id\":{},\"nodeType\":\"{}\",\"connectionType\":\"{}\",\"value\":{},\"connectedBlockId\":{},\"connectedBlockTypeId\":{},\"connectedNodeId\":{}}}",
        id, direction, kind, value, block, typ, node
    )
}

fn block(id: u32, kind: u32, ports: Vec<String>) -> String {
    format!("{{\"blockId\":{},\"blockTypeId\":{},\"nodes\":[{}]}}", id, kind, ports.join(","))
}

fn program(blocks: Vec<String>) -> String {
    format!("[{}]", blocks.join(","))
}

fn code_of(text: &str) -> Vec<Block> {
    decode(&parse(text).unwrap()).unwrap()
}

fn catalog() -> Logic<Builtin> {
    let mut logic = Logic::default();
    bme::blocks::add_blocks(&mut logic);
    logic
}

fn start(id: u32, next: Option<(u32, u32, u32)>) -> String {
    block(id, 1, vec![port(1, "output", "Execution", "null", next)])
}

fn print_from(id: u32, from: (u32, u32, u32), next: Option<(u32, u32, u32)>, input: String) -> String {
    block(
        id,
        2,
        vec![
            port(0, "input", "Execution", "null", Some(from)),
            port(1, "output", "Execution", "null", next),
            input,
        ],
    )
}

fn text(s: &str) -> ExecutionType {
    ExecutionType::String(s.to_string())
}

#[test]
fn block_that_is_not_in_the_program_is_missing() {
    let logic = catalog();
    let register = RegisterFile::new();
    assert_eq!(exec_inputs(&logic, &vec![], &register, 5, MAX_DEPTH), Err(Error::MissingBlock(5)));
    assert_eq!(exec_inputs(&logic, &vec![], &register, 5, 0), Err(Error::DepthExceeded));
}

#[test]
fn evaluating_a_block_returns_what_its_handler_gives() {
    let logic = catalog();
    let code = code_of(&program(vec![block(
        4,
        64001,
        vec![
            port(2, "input", "Integer", "40", None),
            port(4, "input", "Integer", "\"2\"", None),
            port(3, "output", "Integer", "null", None),
        ],
    )]));
    assert_eq!(
        exec_inputs(&logic, &code, &RegisterFile::new(), 4, MAX_DEPTH),
        Ok(Output {
            registers: vec![Register { block_id: 4, node_id: 3, value: ExecutionType::Integer(42) }],
            lines: vec![],
        })
    );
}

#[test]
fn inputs_are_gathered_in_the_order_of_the_ports() {
    let logic = catalog();
    let code = code_of(&program(vec![block(
        4,
        4,
        vec![
            port(4, "input", "String", "\"first\"", None),
            port(3, "output", "String", "null", None),
            port(2, "input", "String", "\"second\"", None),
        ],
    )]));
    let out = exec_inputs(&logic, &code, &RegisterFile::new(), 4, MAX_DEPTH).unwrap();
    assert_eq!(out.registers[0].value, text("firstsecond"));
}

#[test]
fn start_block_is_not_run() {
    let logic = catalog();
    let code = code_of(&program(vec![start(1, None)]));
    assert_eq!(
        exec_inputs(&logic, &code, &RegisterFile::new(), 1, MAX_DEPTH),
        Ok(Output { registers: vec![], lines: vec![] })
    );
}

#[test]
fn failing_handler_is_reported_with_its_block() {
    let code = program(vec![
        start(1, Some((2, 2, 0))),
        print_from(2, (1, 1, 1), None, port(2, "input", "String", "null", Some((3, 6, 3)))),
        block(
            3,
            6,
            vec![
                port(2, "input", "Integer", "null", Some((4, 64004, 3))),
                port(3, "output", "String", "null", Some((2, 2, 2))),
            ],
        ),
        block(
            4,
            64004,
            vec![
                port(2, "input", "Integer", "1", None),
                port(4, "input", "Integer", "0", None),
                port(3, "output", "Integer", "null", Some((3, 6, 2))),
            ],
        ),
    ]);
    let mut exe = Executer::new(catalog(), code);
    assert_eq!(exe.execute(vec![]), Err(Error::BlockFailed(4, "division by zero".to_string())));
    assert_eq!(exe.lines(), Vec::<String>::new());
}

#[test]
fn value_that_a_static_block_does_not_give_is_missing() {
    let code = program(vec![
        start(1, Some((2, 2, 0))),
        print_from(2, (1, 1, 1), None, port(2, "input", "String", "null", Some((3, 3, 5)))),
        block(
            3,
            3,
            vec![
                port(2, "input", "String", "\"a\"", None),
                port(3, "output", "String", "null", None),
                port(5, "output", "String", "null", Some((2, 2, 2))),
            ],
        ),
    ]);
    let mut exe = Executer::new(catalog(), code);
    assert_eq!(exe.execute(vec![]), Err(Error::MissingOutput(5)));
}

#[test]
fn static_blocks_that_feed_each_other_exceed_the_depth() {
    let code = program(vec![
        start(1, Some((2, 2, 0))),
        print_from(2, (1, 1, 1), None, port(2, "input", "String", "null", Some((3, 3, 3)))),
        block(
            3,
            3,
            vec![
                port(2, "input", "String", "null", Some((4, 3, 3))),
                port(3, "output", "String", "null", Some((2, 2, 2))),
            ],
        ),
        block(
            4,
            3,
            vec![
                port(2, "input", "String", "null", Some((3, 3, 3))),
                port(3, "output", "String", "null", Some((3, 3, 2))),
            ],
        ),
    ]);
    let mut exe = Executer::new(catalog(), code);
    assert_eq!(exe.execute(vec![]), Err(Error::DepthExceeded));
}

#[test]
fn execution_that_comes_back_to_a_block_is_a_cycle() {
    let input = |s: &str| port(2, "input", "String", s, None);
    let code = program(vec![
        start(1, Some((2, 2, 0))),
        print_from(2, (1, 1, 1), Some((3, 2, 0)), input("\"a\"")),
        print_from(3, (2, 2, 1), Some((2, 2, 0)), input("\"b\"")),
    ]);
    let mut exe = Executer::new(catalog(), code.clone());
    assert_eq!(exe.analyze(), Err(Error::GraphInvalid(Reason::ExecutionCycle)));
    assert_eq!(exe.execute(vec![]), Err(Error::GraphInvalid(Reason::ExecutionCycle)));
    assert_eq!(exe.lines(), Vec::<String>::new());
    let logic = catalog();
    let blocks = code_of(&code);
    let mut register = RegisterFile::new();
    let mut console = vec![];
    assert_eq!(
        execute_block(&logic, &blocks, &mut register, &mut console, 1),
        Err(Error::GraphInvalid(Reason::ExecutionCycle))
    );
    assert_eq!(console, vec!["a".to_string(), "b".to_string()]);
    assert!(!bme::validate::chain_ends_in(&blocks, 1));
    assert!(!bme::validate::chain_ends_in(&blocks, 3));
}

#[test]
fn longest_chain_without_a_cycle_runs_to_its_end() {
    let input = |s: &str| port(2, "input", "String", s, None);
    let code = program(vec![
        start(1, Some((2, 2, 0))),
        print_from(2, (1, 1, 1), Some((3, 2, 0)), input("\"a\"")),
        print_from(3, (2, 2, 1), None, input("\"b\"")),
    ]);
    assert!(bme::validate::chain_ends_in(&code_of(&code), 1));
    let mut exe = Executer::new(catalog(), code);
    assert_eq!(exe.execute(vec![]), Ok(()));
    assert_eq!(exe.lines(), vec!["a".to_string(), "b".to_string()]);
}

#[test]
fn execute_block_writes_outputs_and_lines() {
    let logic = catalog();
    let code = code_of(&program(vec![block(
        4,
        3,
        vec![port(2, "input", "String", "\"kept\"", None), port(3, "output", "String", "null", None)],
    )]));
    let mut register = RegisterFile::new();
    register.insert(9, 9, ExecutionType::Integer(1));
    let mut console = vec!["before".to_string()];
    assert_eq!(execute_block(&logic, &code, &mut register, &mut console, 4), Ok(()));
    assert_eq!(register.get(4, 3), Some(text("kept")));
    assert_eq!(register.get(9, 9), Some(ExecutionType::Integer(1)));
    assert_eq!(console, vec!["before".to_string()]);
}

#[test]
fn unknown_kind_at_the_other_end_of_an_edge_is_reported() {
    let logic = catalog();
    let code = code_of(&program(vec![block(
        4,
        3,
        vec![
            port(2, "input", "String", "null", Some((5, 777, 3))),
            port(3, "output", "String", "null", None),
        ],
    )]));
    assert_eq!(
        exec_inputs(&logic, &code, &RegisterFile::new(), 4, MAX_DEPTH),
        Err(Error::TypeUnknown(TypeRef::Block(777)))
    );
}

#[test]
fn input_of_another_type_than_declared_is_a_mismatch() {
    let logic = catalog();
    let code = code_of(&program(vec![block(
        4,
        3,
        vec![port(2, "input", "Integer", "1", None), port(3, "output", "String", "null", None)],
    )]));
    assert_eq!(
        exec_inputs(&logic, &code, &RegisterFile::new(), 4, MAX_DEPTH),
        Err(Error::TypeMismatch("String".to_string(), "Integer".to_string()))
    );
    let none = code_of(&program(vec![block(4, 3, vec![])]));
    assert_eq!(
        exec_inputs(&logic, &none, &RegisterFile::new(), 4, MAX_DEPTH),
        Err(Error::TypeMismatch("String".to_string(), "".to_string()))
    );
}

#[test]
fn mismatch_is_the_first_position_that_differs() {
    let entry = |value: ExecutionType| Register { block_id: 1, node_id: 2, value };
    let declared = vec!["String".to_string(), "Integer".to_string()];
    assert_eq!(
        find_mismatch(&declared, &vec![entry(text("a")), entry(ExecutionType::Integer(1))]),
        None
    );
    assert_eq!(
        find_mismatch(&declared, &vec![entry(text("a")), entry(text("b"))]),
        Some(("Integer".to_string(), "String".to_string()))
    );
    assert_eq!(
        find_mismatch(&declared, &vec![entry(text("a"))]),
        Some(("Integer".to_string(), "".to_string()))
    );
    assert_eq!(
        find_mismatch(&vec![], &vec![entry(text("a"))]),
        Some(("".to_string(), "String".to_string()))
    );
}

#[test]
fn take_output_finds_the_first_entry_of_a_port() {
    let entry = |node_id: u32, s: &str| Register { block_id: 1, node_id, value: text(s) };
    let all = || vec![entry(3, "a"), entry(5, "b"), entry(5, "c")];
    assert_eq!(take_output(all(), 5), Some(entry(5, "b")));
    assert_eq!(take_output(all(), 3), Some(entry(3, "a")));
    assert_eq!(take_output(all(), 7), None);
}

#[test]
fn register_keeps_the_last_value_written_for_a_port() {
    let mut register = RegisterFile::new();
    assert_eq!(register.get(1, 3), None);
    register.insert(1, 3, ExecutionType::Integer(1));
    register.insert(1, 5, ExecutionType::Integer(2));
    register.insert(1, 3, ExecutionType::Integer(3));
    assert_eq!(register.get(1, 3), Some(ExecutionType::Integer(3)));
    assert_eq!(register.get(1, 5), Some(ExecutionType::Integer(2)));
    assert_eq!(register.get(3, 1), None);
    register.insert_all(
        7,
        vec![
            Register { block_id: 1, node_id: 3, value: text("x") },
            Register { block_id: 7, node_id: 3, value: text("y") },
        ],
    );
    assert_eq!(register.get(7, 3), Some(text("y")));
    assert_eq!(register.get(1, 3), Some(ExecutionType::Integer(3)));
    register.clear();
    assert_eq!(register.get(1, 3), None);
    assert_eq!(register.get(7, 3), None);
}

#[test]
fn output_of_a_static_block_is_computed_and_not_read_from_the_register() {
    let logic = catalog();
    let code = code_of(&program(vec![
        print_from(2, (1, 1, 1), None, port(2, "input", "String", "null", Some((3, 3, 3)))),
        block(
            3,
            3,
            vec![
                port(2, "input", "String", "\"computed\"", None),
                port(3, "output", "String", "null", Some((2, 2, 2))),
            ],
        ),
    ]));
    let empty = RegisterFile::new();
    let mut held = RegisterFile::new();
    held.insert(3, 3, text("held"));
    let out = exec_inputs(&logic, &code, &held, 2, MAX_DEPTH);
    assert_eq!(out, Ok(Output { registers: vec![], lines: vec!["computed".to_string()] }));
    assert_eq!(out, exec_inputs(&logic, &code, &empty, 2, MAX_DEPTH));
}

#[test]
fn execution_edge_to_a_block_that_is_not_there_is_a_missing_block() {
    let logic = catalog();
    let input = |s: &str| port(2, "input", "String", s, None);
    let one = code_of(&program(vec![print_from(2, (1, 1, 1), Some((9, 2, 0)), input("\"a\""))]));
    let mut register = RegisterFile::new();
    let mut console = vec![];
    assert_eq!(
        execute_block(&logic, &one, &mut register, &mut console, 2),
        Err(Error::MissingBlock(9))
    );
    assert_eq!(console, vec!["a".to_string()]);
    assert!(bme::validate::chain_ends_in(&one, 2));
    let two = code_of(&program(vec![
        print_from(2, (1, 1, 1), Some((3, 2, 0)), input("\"a\"")),
        print_from(3, (2, 2, 1), Some((9, 2, 0)), input("\"b\"")),
    ]));
    let mut console = vec![];
    assert_eq!(
        execute_block(&logic, &two, &mut register, &mut console, 2),
        Err(Error::MissingBlock(9))
    );
    assert_eq!(console, vec!["a".to_string(), "b".to_string()]);
    let mut console = vec!["kept".to_string()];
    let mut held = RegisterFile::new();
    held.insert(1, 3, ExecutionType::Integer(1));
    assert_eq!(
        execute_block(&logic, &two, &mut held, &mut console, 7),
        Err(Error::MissingBlock(7))
    );
    assert_eq!(console, vec!["kept".to_string()]);
    assert_eq!(held.get(1, 3), Some(ExecutionType::Integer(1)));
}

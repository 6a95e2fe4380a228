use bme::blocks::Builtin;
use bme::error::Error;
use bme::executer::Executer;
use bme::logic::{ExecutionBlock, ExecutionBlockType, Logic, Output};
use bme::register::Register;
use bme::types::ExecutionType;

fn port(id: u32, direction: &str, kind: &str, value: &str, edge: Option<(u32, u32, u32)>) -> String {
    let (block, typ, node) = match edge {
        Some((block, typ, node)) => (block.to_string(), typ.to_string(), node.to_string()),
        None => ("null".to_string(), "null".to_string(), "null".to_string()),
    };
    format!(
        "{{\"id\":{},\"nodeType\":\"{}\",\"connectionType\":\"{}\",\"value\":{},\"connectedBlockId\":{},\"connectedBlockTypeId\":{},\"connectedNodeId\":{}}}",
        id, direction, kind, value, block, typ, node
    )
}

fn block(id: u32, kind: u32, ports: Vec<String>) -> String {
    format!(
        "{{\"blockId\":{},\"blockTypeId\":{},\"position\":{{\"x\":1,\"y\":2}},\"nodes\":[{}]}}",
        id,
        kind,
        ports.join(",")
    )
}

fn program(blocks: Vec<String>) -> String {
    format!("[{}]", blocks.join(","))
}

fn engine(code: String) -> Executer<Builtin> {
    Executer::new(Logic::default(), code)
}

/// The kinds of the default catalog, and three that a host adds: a start
/// kind with one integer output, a normal kind that gives a text, and a
/// normal kind that prints a number.
#[derive(Debug, Clone, Copy, PartialEq, Eq)]
enum Kind {
    Own(Builtin),
    NumberedStart,
    Emit,
    PrintNumber,
}

impl ExecutionBlock for Kind {
    fn get_id(&self) -> u32 {
        match self {
            Kind::Own(kind) => kind.get_id(),
            Kind::NumberedStart => 101,
            Kind::Emit => 102,
            Kind::PrintNumber => 103,
        }
    }

    fn get_name(&self) -> String {
        match self {
            Kind::Own(kind) => kind.get_name(),
            other => format!("{:?}", other),
        }
    }

    fn get_type(&self) -> ExecutionBlockType {
        match self {
            Kind::Own(kind) => kind.get_type(),
            Kind::NumberedStart => ExecutionBlockType::Start,
            Kind::Emit => ExecutionBlockType::Normal,
            Kind::PrintNumber => ExecutionBlockType::Normal,
        }
    }

    fn get_inputs(&self) -> Vec<String> {
        match self {
            Kind::Own(kind) => kind.get_inputs(),
            Kind::PrintNumber => vec!["Integer".to_string()],
            _ => vec![],
        }
    }

    fn get_outputs(&self) -> Vec<String> {
        match self {
            Kind::Own(kind) => kind.get_outputs(),
            Kind::NumberedStart => vec!["Integer".to_string()],
            Kind::Emit => vec!["String".to_string()],
            Kind::PrintNumber => vec![],
        }
    }

    fn execute(&self, input: Vec<Register>, block_id: u32) -> Result<Output, String> {
        match self {
            Kind::Own(kind) => kind.execute(input, block_id),
            Kind::NumberedStart => Ok(Output { registers: vec![], lines: vec![] }),
            Kind::Emit => Ok(Output {
                registers: vec![Register {
                    block_id,
                    node_id: 3,
                    value: ExecutionType::String("A".to_string()),
                }],
                lines: vec![],
            }),
            Kind::PrintNumber => match input[0].value.get_integer() {
                Some(number) => Ok(Output { registers: vec![], lines: vec![number.to_string()] }),
                None => Err("input".to_string()),
            },
        }
    }
}

fn host_engine(code: String) -> Executer<Kind> {
    let mut logic = Logic::empty();
    logic.add_block(Kind::NumberedStart);
    logic.add_block(Kind::Emit);
    logic.add_block(Kind::PrintNumber);
    logic.add_block(Kind::Own(Builtin::ConsolePrint));
    logic.add_block(Kind::Own(Builtin::StaticString));
    Executer::new(logic, code)
}

#[test]
fn literal_reaches_the_print_block() {
    let code = program(vec![
        block(10, 1, vec![port(1, "output", "Execution", "null", Some((11, 2, 0)))]),
        block(
            11,
            2,
            vec![
                port(0, "input", "Execution", "null", Some((10, 1, 1))),
                port(1, "output", "Execution", "null", None),
                port(2, "input", "String", "\"Hello\"", None),
            ],
        ),
    ]);
    let mut exe = engine(code);
    assert_eq!(exe.execute(vec![]), Ok(()));
    assert_eq!(exe.lines(), vec!["Hello".to_string()]);
    assert_eq!(exe.get(11, 2), None);
    assert_eq!(exe.get(11, 3), None);
}

#[test]
fn static_block_feeds_the_print_block() {
    let code = program(vec![
        block(1, 1, vec![port(1, "output", "Execution", "null", Some((2, 2, 0)))]),
        block(
            2,
            2,
            vec![
                port(0, "input", "Execution", "null", Some((1, 1, 1))),
                port(1, "output", "Execution", "null", None),
                port(2, "input", "String", "null", Some((3, 3, 3))),
            ],
        ),
        block(
            3,
            3,
            vec![
                port(2, "input", "String", "\"Hi\"", None),
                port(3, "output", "String", "null", Some((2, 2, 2))),
            ],
        ),
    ]);
    let mut exe = engine(code);
    assert_eq!(exe.execute(vec![]), Ok(()));
    assert_eq!(exe.lines(), vec!["Hi".to_string()]);
    assert_eq!(exe.get(3, 3), None);
}

#[test]
fn joined_texts_reach_the_print_block() {
    let code = program(vec![
        block(1, 1, vec![port(1, "output", "Execution", "null", Some((2, 2, 0)))]),
        block(
            2,
            2,
            vec![
                port(0, "input", "Execution", "null", Some((1, 1, 1))),
                port(1, "output", "Execution", "null", None),
                port(2, "input", "String", "null", Some((4, 4, 3))),
            ],
        ),
        block(
            4,
            4,
            vec![
                port(2, "input", "String", "\"Hello \"", None),
                port(4, "input", "String", "\"World\"", None),
                port(3, "output", "String", "null", Some((2, 2, 2))),
            ],
        ),
    ]);
    let mut exe = engine(code);
    assert_eq!(exe.execute(vec![]), Ok(()));
    assert_eq!(exe.lines(), vec!["Hello World".to_string()]);
}

fn emit_then_print(linked: bool) -> String {
    let first = if linked { Some((2, 102, 0)) } else { Some((3, 2, 0)) };
    let into_print = if linked { Some((2, 102, 1)) } else { Some((1, 101, 1)) };
    program(vec![
        block(
            1,
            101,
            vec![
                port(1, "output", "Execution", "null", first),
                port(3, "output", "Integer", "null", None),
            ],
        ),
        block(
            2,
            102,
            vec![
                port(0, "input", "Execution", "null", Some((1, 101, 1))),
                port(1, "output", "Execution", "null", if linked { Some((3, 2, 0)) } else { None }),
                port(3, "output", "String", "null", Some((3, 2, 2))),
            ],
        ),
        block(
            3,
            2,
            vec![
                port(0, "input", "Execution", "null", into_print),
                port(1, "output", "Execution", "null", None),
                port(2, "input", "String", "null", Some((2, 102, 3))),
            ],
        ),
    ])
}

#[test]
fn output_of_a_normal_block_is_read_from_the_register() {
    let mut exe = host_engine(emit_then_print(true));
    assert_eq!(exe.execute(vec![]), Ok(()));
    assert_eq!(exe.lines(), vec!["A".to_string()]);
    assert_eq!(exe.get(2, 3), Some(ExecutionType::String("A".to_string())));
}

#[test]
fn output_of_a_block_that_has_not_run_is_missed() {
    let mut exe = host_engine(emit_then_print(false));
    assert_eq!(exe.execute(vec![]), Err(Error::RegisterMiss(2, 3)));
    assert_eq!(exe.lines(), Vec::<String>::new());
    assert_eq!(exe.get(2, 3), None);
}

#[test]
fn seed_reaches_the_block_that_reads_the_start_block() {
    let code = program(vec![
        block(
            1,
            101,
            vec![
                port(1, "output", "Execution", "null", Some((2, 103, 0))),
                port(3, "output", "Integer", "null", Some((2, 103, 2))),
            ],
        ),
        block(
            2,
            103,
            vec![
                port(0, "input", "Execution", "null", Some((1, 101, 1))),
                port(1, "output", "Execution", "null", None),
                port(2, "input", "Integer", "null", Some((1, 101, 3))),
            ],
        ),
    ]);
    let mut exe = host_engine(code);
    assert_eq!(exe.execute(vec![ExecutionType::Integer(42)]), Ok(()));
    assert_eq!(exe.lines(), vec!["42".to_string()]);
    assert_eq!(exe.get(1, 3), Some(ExecutionType::Integer(42)));
}

#[test]
fn seed_of_another_type_than_declared_is_refused() {
    let code = program(vec![block(
        1,
        101,
        vec![
            port(1, "output", "Execution", "null", None),
            port(3, "output", "Integer", "null", None),
        ],
    )]);
    let mut exe = host_engine(code);
    assert_eq!(
        exe.execute(vec![ExecutionType::String("x".to_string())]),
        Err(Error::TypeMismatch("Integer".to_string(), "String".to_string()))
    );
    assert_eq!(exe.get(1, 3), None);
    assert_eq!(
        exe.execute(vec![ExecutionType::Integer(1), ExecutionType::Integer(2)]),
        Err(Error::TypeMismatch("".to_string(), "Integer".to_string()))
    );
}

#[test]
fn program_without_start_block_does_not_run() {
    let code = program(vec![block(
        2,
        2,
        vec![
            port(1, "output", "Execution", "null", None),
            port(2, "input", "String", "\"x\"", None),
        ],
    )]);
    let mut exe = engine(code);
    assert_eq!(exe.analyze(), Ok(()));
    assert_eq!(exe.execute(vec![]), Err(Error::NoStart));
}

#[test]
fn two_runs_leave_the_same_register_and_lines() {
    let mut exe = host_engine(emit_then_print(true));
    assert_eq!(exe.execute(vec![ExecutionType::Integer(7)]), Ok(()));
    let lines = exe.lines();
    let held = (exe.get(1, 3), exe.get(2, 3));
    assert_eq!(exe.execute(vec![ExecutionType::Integer(7)]), Ok(()));
    assert_eq!(exe.lines(), lines);
    assert_eq!((exe.get(1, 3), exe.get(2, 3)), held);
    assert_eq!(held.0, Some(ExecutionType::Integer(7)));
}

#[test]
fn blocks_run_in_the_order_of_the_execution_edges() {
    let code = program(vec![
        block(1, 1, vec![port(1, "output", "Execution", "null", Some((2, 2, 0)))]),
        block(
            2,
            2,
            vec![
                port(0, "input", "Execution", "null", Some((1, 1, 1))),
                port(1, "output", "Execution", "null", Some((3, 2, 0))),
                port(2, "input", "String", "\"first\"", None),
            ],
        ),
        block(
            3,
            2,
            vec![
                port(0, "input", "Execution", "null", Some((2, 2, 1))),
                port(1, "output", "Execution", "null", None),
                port(2, "input", "String", "\"second\"", None),
            ],
        ),
    ]);
    let mut exe = engine(code);
    assert_eq!(exe.execute(vec![]), Ok(()));
    assert_eq!(exe.lines(), vec!["first".to_string(), "second".to_string()]);
}

#[test]
fn register_holds_outputs_of_start_and_normal_blocks_only() {
    let mut exe = host_engine(emit_then_print(true));
    assert_eq!(exe.execute(vec![ExecutionType::Integer(5)]), Ok(()));
    let mut held = vec![];
    for block in exe.get_code() {
        for node in &block.nodes {
            if let Some(value) = exe.get(block.block_id, node.id) {
                held.push((block.block_id, node.id, node.connection_type.clone(), value.get_name()));
            }
        }
    }
    assert_eq!(
        held,
        vec![
            (1, 3, "Integer".to_string(), "Integer".to_string()),
            (2, 3, "String".to_string(), "String".to_string()),
        ]
    );
    for (block, port) in [(1, 1), (2, 0), (2, 1), (3, 0), (3, 1), (3, 2), (3, 3), (4, 3)] {
        assert_eq!(exe.get(block, port), None);
    }
}

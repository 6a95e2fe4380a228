use bme::blocks::{add_blocks, Builtin, ConsoleLog, Operation, Start, StaticString};
use bme::logic::{ExecutionBlock, ExecutionBlockType, Logic, Output};
use bme::register::Register;
use bme::types::ExecutionType;

fn entry(value: ExecutionType) -> Register {
    Register { block_id: 1, node_id: 3, value }
}

fn text(s: &str) -> Register {
    entry(ExecutionType::String(s.to_string()))
}

fn number(i: i64) -> Register {
    entry(ExecutionType::Integer(i))
}

fn given(block_id: u32, value: ExecutionType) -> Result<Output, String> {
    Ok(Output { registers: vec![Register { block_id, node_id: 3, value }], lines: vec![] })
}

fn given_text(block_id: u32, s: &str) -> Result<Output, String> {
    given(block_id, ExecutionType::String(s.to_string()))
}

#[test]
fn ids_names_and_categories_of_the_default_kinds() {
    let kinds = Logic::<Builtin>::default().blocks;
    let ids: Vec<u32> = kinds.iter().map(|k| k.get_id()).collect();
    assert_eq!(ids, vec![1, 2, 3, 4, 5, 6]);
    let names: Vec<String> = kinds.iter().map(|k| k.get_name()).collect();
    assert_eq!(
        names,
        vec!["Start", "ConsolePrint", "StaticString", "AddString", "AddInteger", "IntegerToString"]
    );
    let categories: Vec<ExecutionBlockType> = kinds.iter().map(|k| k.get_type()).collect();
    assert_eq!(
        categories,
        vec![
            ExecutionBlockType::Start,
            ExecutionBlockType::Normal,
            ExecutionBlockType::Static,
            ExecutionBlockType::Static,
            ExecutionBlockType::Static,
            ExecutionBlockType::Static,
        ]
    );
}

#[test]
fn add_blocks_registers_the_kinds_of_the_modules_in_order() {
    let mut logic: Logic<Builtin> = Logic::empty();
    add_blocks(&mut logic);
    let ids: Vec<u32> = logic.blocks.iter().map(|k| k.get_id()).collect();
    assert_eq!(
        ids,
        vec![
            60000, 60001, 64001, 64002, 64003, 64004, 64005, 68001, 68002, 68003, 68004, 68005,
            68006
        ]
    );
    let mut numbers: Logic<Builtin> = Logic::empty();
    bme::blocks::integer::add_blocks(&mut numbers);
    assert_eq!(numbers.blocks.len(), 5);
    assert_eq!(numbers.blocks[3], Builtin::IntegerDivide);
    let mut texts: Logic<Builtin> = Logic::empty();
    bme::blocks::string::add_blocks(&mut texts);
    assert_eq!(texts.blocks.len(), 6);
    assert_eq!(texts.blocks[5], Builtin::StringInsert);
}

#[test]
fn declared_inputs_and_outputs() {
    assert_eq!(Builtin::Start.get_inputs(), Vec::<String>::new());
    assert_eq!(Builtin::Start.get_outputs(), Vec::<String>::new());
    assert_eq!(Builtin::ConsolePrint.get_inputs(), vec!["String"]);
    assert_eq!(Builtin::ConsolePrint.get_outputs(), Vec::<String>::new());
    assert_eq!(Builtin::AddString.get_inputs(), vec!["String", "String"]);
    assert_eq!(Builtin::AddInteger.get_inputs(), vec!["Integer", "Integer"]);
    assert_eq!(Builtin::AddInteger.get_outputs(), vec!["Integer"]);
    assert_eq!(Builtin::IntegerToString.get_inputs(), vec!["Integer"]);
    assert_eq!(Builtin::IntegerToString.get_outputs(), vec!["String"]);
    assert_eq!(Builtin::StringLength.get_outputs(), vec!["Integer"]);
    assert_eq!(Builtin::StringInsert.get_inputs(), vec!["String", "Integer", "String"]);
    assert_eq!(Builtin::StringInsert.get_operation(), Operation::Insert);
}

#[test]
fn print_gives_its_input_as_a_line_and_no_value() {
    assert_eq!(
        Builtin::ConsolePrint.execute(vec![text("out")], 4),
        Ok(Output { registers: vec![], lines: vec!["out".to_string()] })
    );
    assert_eq!(
        Builtin::Comment.execute(vec![], 4),
        Ok(Output { registers: vec![], lines: vec![] })
    );
}

#[test]
fn outputs_are_filed_under_the_block_and_the_port_three() {
    assert_eq!(Builtin::StaticString.execute(vec![text("same")], 77), given_text(77, "same"));
}

#[test]
fn texts_are_joined_in_order() {
    assert_eq!(Builtin::AddString.execute(vec![text("ab"), text("cd")], 1), given_text(1, "abcd"));
    assert_eq!(Builtin::StringAdd.execute(vec![text(""), text("x")], 1), given_text(1, "x"));
}

#[test]
fn integer_arithmetic() {
    let run = |kind: Builtin, a: i64, b: i64| kind.execute(vec![number(a), number(b)], 2);
    assert_eq!(run(Builtin::AddInteger, 2, 3), given(2, ExecutionType::Integer(5)));
    assert_eq!(run(Builtin::IntegerAdd, -2, 3), given(2, ExecutionType::Integer(1)));
    assert_eq!(run(Builtin::IntegerSubtract, 2, 3), given(2, ExecutionType::Integer(-1)));
    assert_eq!(run(Builtin::IntegerMultiply, -4, 3), given(2, ExecutionType::Integer(-12)));
    assert_eq!(run(Builtin::IntegerDivide, 7, 2), given(2, ExecutionType::Integer(3)));
    assert_eq!(run(Builtin::IntegerDivide, -7, 2), given(2, ExecutionType::Integer(-3)));
    assert_eq!(run(Builtin::IntegerDivide, 7, -2), given(2, ExecutionType::Integer(-3)));
    assert_eq!(run(Builtin::IntegerDivide, -7, -2), given(2, ExecutionType::Integer(3)));
}

#[test]
fn integer_arithmetic_fails_outside_the_range_and_on_zero() {
    let run = |kind: Builtin, a: i64, b: i64| kind.execute(vec![number(a), number(b)], 2);
    assert_eq!(run(Builtin::IntegerAdd, i64::MAX, 1), Err("overflow".to_string()));
    assert_eq!(run(Builtin::IntegerSubtract, i64::MIN, 1), Err("overflow".to_string()));
    assert_eq!(run(Builtin::IntegerMultiply, i64::MAX, 2), Err("overflow".to_string()));
    assert_eq!(run(Builtin::IntegerDivide, i64::MIN, -1), Err("overflow".to_string()));
    assert_eq!(run(Builtin::IntegerDivide, 1, 0), Err("division by zero".to_string()));
    assert_eq!(run(Builtin::IntegerAdd, i64::MAX, 0), given(2, ExecutionType::Integer(i64::MAX)));
}

#[test]
fn number_is_written_in_decimal() {
    assert_eq!(Builtin::IntegerToString.execute(vec![number(-42)], 3), given_text(3, "-42"));
    assert_eq!(Builtin::IntegerWrite.execute(vec![number(0)], 3), given_text(3, "0"));
}

#[test]
fn length_of_a_text_is_counted_in_bytes() {
    assert_eq!(
        Builtin::StringLength.execute(vec![text("abc")], 3),
        given(3, ExecutionType::Integer(3))
    );
    assert_eq!(
        Builtin::StringLength.execute(vec![text("é")], 3),
        given(3, ExecutionType::Integer(2))
    );
}

#[test]
fn trim_and_case() {
    assert_eq!(Builtin::StringTrim.execute(vec![text("  a b \n")], 3), given_text(3, "a b"));
    assert_eq!(Builtin::StringToLowercase.execute(vec![text("AbC")], 3), given_text(3, "abc"));
    assert_eq!(Builtin::StringToUppercase.execute(vec![text("AbC")], 3), given_text(3, "ABC"));
}

#[test]
fn piece_is_put_into_a_text_at_a_byte() {
    let run = |s: &str, at: i64, piece: &str| {
        Builtin::StringInsert.execute(vec![text(s), number(at), text(piece)], 3)
    };
    assert_eq!(run("abcd", 2, "XY"), given_text(3, "abXYcd"));
    assert_eq!(run("abcd", 0, "XY"), given_text(3, "XYabcd"));
    assert_eq!(run("abcd", 4, "XY"), given_text(3, "abcdXY"));
    assert_eq!(run("abcd", 9, "XY"), given_text(3, "abcdXY"));
    assert_eq!(run("abcd", -1, "XY"), given_text(3, "abcdXY"));
    assert_eq!(run("é", 1, "X"), Err("boundary".to_string()));
    assert_eq!(run("é", 2, "X"), given_text(3, "éX"));
}

#[test]
fn single_kinds_are_the_kinds_that_they_stand_for() {
    assert_eq!(Start {}.get_id(), 1);
    assert_eq!(Start {}.get_type(), ExecutionBlockType::Start);
    assert_eq!(ConsoleLog {}.get_id(), 2);
    assert_eq!(ConsoleLog {}.get_name(), "ConsolePrint");
    assert_eq!(ConsoleLog {}.get_inputs(), vec!["String"]);
    assert_eq!(
        ConsoleLog {}.execute(vec![text("line")], 8),
        Ok(Output { registers: vec![], lines: vec!["line".to_string()] })
    );
    assert_eq!(StaticString {}.get_id(), 3);
    assert_eq!(StaticString {}.execute(vec![text("s")], 8), given_text(8, "s"));
    let mut logic: Logic<StaticString> = Logic::empty();
    logic.add_block(StaticString {});
    assert_eq!(logic.get_block(3), Some(&StaticString {}));
}

use bme::error::{Error, Reason};
use bme::json::{parse, print, Json};

fn field(name: &str, value: Json) -> (String, Json) {
    (name.to_string(), value)
}

#[test]
fn parse_reads_every_kind_of_node() {
    let read = parse("{\"b\": 1, \"a\": [true, null, 1.5, \"x\", -3, 18446744073709551615]}").unwrap();
    assert_eq!(
        read,
        Json::Object(vec![
            field(
                "a",
                Json::Array(vec![
                    Json::Bool(true),
                    Json::Null,
                    Json::Decimal("1.5".to_string()),
                    Json::Text("x".to_string()),
                    Json::Integer(-3),
                    Json::Decimal("18446744073709551615".to_string()),
                ])
            ),
            field("b", Json::Integer(1)),
        ])
    );
}

#[test]
fn parse_reports_where_the_text_is_not_json() {
    assert_eq!(
        parse("[1,\n 2,, 3]"),
        Err(Error::GraphInvalid(Reason::Syntax { line: 2, column: 4 }))
    );
    assert_eq!(parse(""), Err(Error::GraphInvalid(Reason::Syntax { line: 1, column: 0 })));
}

#[test]
fn print_writes_compact_json() {
    let json = Json::Object(vec![
        field("id", Json::Integer(7)),
        field(
            "list",
            Json::Array(vec![
                Json::Null,
                Json::Bool(false),
                Json::Text("a\"b".to_string()),
                Json::Decimal("2.5".to_string()),
            ]),
        ),
    ]);
    assert_eq!(print(&json), "{\"id\":7,\"list\":[null,false,\"a\\\"b\",2.5]}");
}

#[test]
fn print_writes_null_for_a_decimal_that_is_no_number() {
    assert_eq!(print(&Json::Decimal("abc".to_string())), "null");
    assert_eq!(print(&Json::Decimal("3".to_string())), "3");
}

#[test]
fn what_is_printed_is_parsed_again_the_same() {
    let json = Json::Array(vec![
        Json::Integer(i64::MIN),
        Json::Integer(i64::MAX),
        Json::Text("text".to_string()),
        Json::Object(vec![field("a", Json::Null), field("b", Json::Bool(true))]),
    ]);
    assert_eq!(parse(&print(&json)), Ok(json));
}

#[test]
fn field_is_the_first_of_its_name() {
    let json = Json::Object(vec![
        field("a", Json::Integer(1)),
        field("b", Json::Integer(2)),
        field("a", Json::Integer(3)),
    ]);
    assert_eq!(json.field("a"), Some(&Json::Integer(1)));
    assert_eq!(json.field("b"), Some(&Json::Integer(2)));
    assert_eq!(json.field("c"), None);
    assert_eq!(Json::Integer(1).field("a"), None);
}

#[test]
fn duplicate_of_a_document_is_equal_to_it() {
    let json = parse("{\"a\": [1, {\"b\": [\"x\", 2.5, null]}], \"c\": false}").unwrap();
    assert_eq!(json.duplicate(), json);
}

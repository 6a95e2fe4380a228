use bme::blocks::Builtin;
use bme::describe::get_json;
use bme::error::{Error, TypeRef};
use bme::json::{print, Json};
use bme::logic::{ExecutionBlockType, Logic};
use bme::types::{ExecutionType, HostType};

#[test]
fn new_catalog_has_the_four_types_and_no_kinds() {
    let logic: Logic<Builtin> = Logic::empty();
    assert!(logic.blocks.is_empty());
    let names: Vec<String> = logic.types.iter().map(|t| t.get_name()).collect();
    assert_eq!(names, vec!["Execution", "String", "Integer", "Float"]);
    assert!(logic.has_type("Float"));
    assert!(!logic.has_type("Unknown"));
}

#[test]
fn kind_is_found_by_id_and_the_first_of_an_id_wins() {
    let mut logic: Logic<Builtin> = Logic::default();
    assert_eq!(logic.get_block(4), Some(&Builtin::AddString));
    assert_eq!(logic.get_block(0), None);
    assert_eq!(logic.get_block(64001), None);
    bme::blocks::add_blocks(&mut logic);
    assert_eq!(logic.get_block(64001), Some(&Builtin::IntegerAdd));
    assert_eq!(logic.get_block(60001), Some(&Builtin::Print));
}

#[test]
fn kinds_are_listed_by_category_in_order() {
    let logic: Logic<Builtin> = Logic::default();
    assert_eq!(logic.get_blocks_by_type(ExecutionBlockType::Start), vec![&Builtin::Start]);
    assert_eq!(logic.get_blocks_by_type(ExecutionBlockType::Normal), vec![&Builtin::ConsolePrint]);
    assert_eq!(
        logic.get_blocks_by_type(ExecutionBlockType::Static),
        vec![
            &Builtin::StaticString,
            &Builtin::AddString,
            &Builtin::AddInteger,
            &Builtin::IntegerToString
        ]
    );
}

#[test]
fn literal_of_a_type_that_is_not_registered_is_refused() {
    let mut logic: Logic<Builtin> = Logic::empty();
    assert_eq!(
        logic.type_from_json("Integer", &Json::Integer(4)),
        Ok(ExecutionType::Integer(4))
    );
    assert_eq!(
        logic.type_from_json("Unknown", &Json::Integer(4)),
        Err(Error::TypeUnknown(TypeRef::Connection("Unknown".to_string())))
    );
    logic.add_connection_type(ExecutionType::Unknown);
    assert_eq!(logic.type_from_json("Unknown", &Json::Integer(4)), Ok(ExecutionType::Unknown));
}

#[test]
fn description_of_a_kind_lists_its_ports() {
    assert_eq!(
        print(&get_json(&Builtin::Start)),
        "{\"id\":1,\"name\":\"Start\",\"nodes\":[{\"id\":0,\"io\":\"output\",\"name\":\"Next\",\"type\":\"Execution\"}]}"
    );
    assert_eq!(
        print(&get_json(&Builtin::ConsolePrint)),
        "{\"id\":2,\"name\":\"ConsolePrint\",\"nodes\":[{\"id\":0,\"io\":\"input\",\"name\":\"Run\",\"type\":\"Execution\"},{\"id\":1,\"io\":\"output\",\"name\":\"Next\",\"type\":\"Execution\"},{\"id\":2,\"io\":\"input\",\"type\":\"String\"}]}"
    );
    assert_eq!(
        print(&get_json(&Builtin::AddString)),
        "{\"id\":4,\"name\":\"AddString\",\"nodes\":[{\"id\":2,\"io\":\"input\",\"type\":\"String\"},{\"id\":3,\"io\":\"output\",\"type\":\"String\"},{\"id\":4,\"io\":\"input\",\"type\":\"String\"}]}"
    );
    assert_eq!(
        print(&get_json(&Builtin::StringInsert)),
        "{\"id\":68006,\"name\":\"StringInsert\",\"nodes\":[{\"id\":2,\"io\":\"input\",\"type\":\"String\"},{\"id\":3,\"io\":\"output\",\"type\":\"String\"},{\"id\":4,\"io\":\"input\",\"type\":\"Integer\"},{\"id\":6,\"io\":\"input\",\"type\":\"String\"}]}"
    );
}

#[test]
fn description_of_the_connection_types() {
    let logic: Logic<Builtin> = Logic::empty();
    let written: Vec<String> = logic.get_connection_json().iter().map(print).collect();
    assert_eq!(
        written,
        vec![
            "{\"color\":\"dark\",\"type\":\"Execution\",\"valueCheck\":\"\",\"valueDefault\":\"\",\"valueEdit\":false}",
            "{\"color\":\"green\",\"type\":\"String\",\"valueCheck\":\"\",\"valueDefault\":\"Text\",\"valueEdit\":true}",
            "{\"color\":\"lightgreen\",\"type\":\"Integer\",\"valueCheck\":\"\",\"valueDefault\":\"0\",\"valueEdit\":true}",
            "{\"color\":\"darkgreen\",\"type\":\"Float\",\"valueCheck\":\"\",\"valueDefault\":\"0.0\",\"valueEdit\":true}",
        ]
    );
}

#[test]
fn description_of_a_catalog_has_rules_connections_and_blocks() {
    let mut logic: Logic<Builtin> = Logic::empty();
    logic.add_block(Builtin::Comment);
    let json = logic.get_json();
    assert_eq!(
        json.field("rules").map(print),
        Some(
            "{\"strictConnections\":true,\"strictDifferentBlock\":true,\"strictInputOutput\":true}"
                .to_string()
        )
    );
    assert_eq!(
        json.field("blocks").map(print),
        Some("[{\"id\":60000,\"name\":\"Comment\",\"nodes\":[]}]".to_string())
    );
    match json.field("connections") {
        Some(Json::Array(items)) => assert_eq!(items.len(), 4),
        other => panic!("{:?}", other),
    }
}

#[test]
fn type_that_a_host_adds_is_found_by_its_name() {
    let mut logic: Logic<Builtin> = Logic::empty();
    let colour_type = || HostType {
        name: "Colour".to_string(),
        color: "darkgreen".to_string(),
        edit_default: Some("0.0".to_string()),
    };
    let colour = ExecutionType::Other(colour_type(), "black".to_string());
    assert_eq!(
        logic.type_from_json("Colour", &Json::Null),
        Err(Error::TypeUnknown(TypeRef::Connection("Colour".to_string())))
    );
    logic.add_connection_type(colour.duplicate());
    assert!(logic.has_type("Colour"));
    assert_eq!(logic.type_from_json("Colour", &Json::Null), Ok(colour));
    assert_eq!(
        logic.type_from_json("Colour", &Json::Text("red".to_string())),
        Ok(ExecutionType::Other(colour_type(), "red".to_string()))
    );
    assert_eq!(
        print(&logic.get_connection_json()[4]),
        "{\"color\":\"darkgreen\",\"type\":\"Colour\",\"valueCheck\":\"\",\"valueDefault\":\"0.0\",\"valueEdit\":true}"
    );
    assert!(logic.is_well_named());
    let named_like_an_own_type = HostType {
        name: "Integer".to_string(),
        color: "red".to_string(),
        edit_default: None,
    };
    logic.add_connection_type(ExecutionType::Other(named_like_an_own_type, "1".to_string()));
    assert!(!logic.is_well_named());
    assert_eq!(
        logic.type_from_json("Integer", &Json::Integer(4)),
        Ok(ExecutionType::Integer(4))
    );
}

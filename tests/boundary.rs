use plugin_rust_csv::boundary::{execute, info_text, response_text, Inbound, Payload};
use plugin_rust_csv::dispatch::{action_of, Action, PluginError};
use plugin_rust_csv::node::Node;

#[test]
fn execute_null_action_is_an_error_response() {
    assert_eq!(execute(Inbound::Null, Payload::Null), "{\"error\":\"Action is null\"}");
    assert_eq!(
        execute(Inbound::Null, Payload::Parsed(Node::Object(vec![]))),
        "{\"error\":\"Action is null\"}"
    );
}

#[test]
fn execute_rejects_bad_inputs_in_order() {
    assert_eq!(
        execute(Inbound::NotText, Payload::Null),
        "{\"error\":\"Invalid action string\"}"
    );
    let action = || Inbound::Text("parse-csv".to_string());
    assert_eq!(execute(action(), Payload::Null), "{\"error\":\"Input is null\"}");
    assert_eq!(execute(action(), Payload::NotText), "{\"error\":\"Invalid input string\"}");
    assert_eq!(
        execute(action(), Payload::Malformed("EOF while parsing".to_string())),
        "{\"error\":\"Invalid JSON input: EOF while parsing\"}"
    );
}

#[test]
fn execute_routes_parsed_payload() {
    let payload = Node::Object(vec![("data".to_string(), Node::Text("a,b\n1,2".to_string()))]);
    assert_eq!(
        execute(Inbound::Text("readcsv".to_string()), Payload::Parsed(payload)),
        "{\"rows\":[[\"a\",\"b\"],[\"1\",\"2\"]],\"row_count\":2}"
    );
    assert_eq!(
        execute(Inbound::Text("bogus-action".to_string()), Payload::Parsed(Node::Object(vec![]))),
        "{\"error\":\"Unknown action: bogus-action\"}"
    );
}

#[test]
fn error_response_escapes_message() {
    let e = PluginError::MalformedInput("bad \"quote\"\nline\u{1}".to_string());
    assert_eq!(response_text(Err(e)), "{\"error\":\"bad \\\"quote\\\"\\nline\\u0001\"}");
}

#[test]
fn json_text_of_nodes() {
    let n = Node::Object(vec![
        ("a".to_string(), Node::Array(vec![Node::Null, Node::Bool(false)])),
        ("b\\".to_string(), Node::Number("-2.5e3".to_string())),
        ("c".to_string(), Node::Text("tab\there".to_string())),
    ]);
    assert_eq!(n.to_json(), "{\"a\":[null,false],\"b\\\\\":-2.5e3,\"c\":\"tab\\there\"}");
}

#[test]
fn count_nodes_are_decimal() {
    assert_eq!(Node::count(0), Node::Number("0".to_string()));
    assert_eq!(Node::count(1207), Node::Number("1207".to_string()));
}

#[test]
fn lookup_takes_first_member() {
    let n = Node::Object(vec![
        ("k".to_string(), Node::Bool(true)),
        ("k".to_string(), Node::Bool(false)),
    ]);
    assert_eq!(n.get("k"), Some(&Node::Bool(true)));
    assert_eq!(n.get("x"), None);
    assert_eq!(Node::Null.get("k"), None);
}

#[test]
fn action_synonyms() {
    assert_eq!(action_of("writecsv"), Some(Action::FormatCsv));
    assert_eq!(action_of("csv-to-json"), Some(Action::CsvToJson));
    assert_eq!(action_of("parse_csv"), None);
}

#[test]
fn metadata_text() {
    assert_eq!(
        info_text(),
        "{\"name\":\"plugin-rust-csv\",\"version\":\"1.0.0\",\"actions\":[\
{\"name\":\"ParseCSV\",\"role\":\"own\",\"verbs\":[\"parsecsv\",\"readcsv\"],\"prepositions\":[\"from\",\"with\"]},\
{\"name\":\"FormatCSV\",\"role\":\"own\",\"verbs\":[\"formatcsv\",\"writecsv\"],\"prepositions\":[\"from\",\"with\"]},\
{\"name\":\"CSVToJSON\",\"role\":\"own\",\"verbs\":[\"csvtojson\"],\"prepositions\":[\"from\"]}]}"
    );
}

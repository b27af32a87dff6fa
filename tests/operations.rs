use plugin_rust_csv::codec::{parse, to_records};
use plugin_rust_csv::dispatch::{csv_to_json, format_csv, parse_csv, respond, route, PluginError};
use plugin_rust_csv::node::Node;

fn text(s: &str) -> Node {
    Node::Text(s.to_string())
}

fn object(members: Vec<(&str, Node)>) -> Node {
    Node::Object(members.into_iter().map(|(k, v)| (k.to_string(), v)).collect())
}

fn strings(items: &[&str]) -> Vec<String> {
    items.iter().map(|s| s.to_string()).collect()
}

#[test]
fn test_parse_csv() {
    let input = object(vec![
        ("data", text("name,age\nAlice,30\nBob,25")),
        ("headers", Node::Bool(true)),
    ]);

    let result = parse_csv(&input).unwrap();
    assert_eq!(result.get("row_count"), Some(&Node::Number("3".to_string())));
}

#[test]
fn test_csv_to_json() {
    let input = object(vec![("data", text("name,age\nAlice,30\nBob,25"))]);

    let result = csv_to_json(&input).unwrap();
    assert_eq!(result.get("count"), Some(&Node::Number("2".to_string())));
}

#[test]
fn parse_keeps_header_row_first() {
    let rows = parse("name,age\nAlice,30\nBob,25", true).unwrap();
    assert_eq!(
        rows,
        vec![strings(&["name", "age"]), strings(&["Alice", "30"]), strings(&["Bob", "25"])]
    );
}

#[test]
fn parse_response_rows_and_count() {
    let input = object(vec![
        ("data", text("name,age\nAlice,30\nBob,25")),
        ("headers", Node::Bool(true)),
    ]);
    let result = parse_csv(&input).unwrap();
    assert_eq!(
        result.to_json(),
        "{\"rows\":[[\"name\",\"age\"],[\"Alice\",\"30\"],[\"Bob\",\"25\"]],\"row_count\":3}"
    );
}

#[test]
fn parse_without_headers_gives_same_rows() {
    let rows = parse("a,b\n1,2", false).unwrap();
    assert_eq!(rows, vec![strings(&["a", "b"]), strings(&["1", "2"])]);
}

#[test]
fn parse_quoted_fields() {
    let rows = parse("x,y\n\"a,b\",\"say \"\"hi\"\"\"\n\"two\nlines\",z", true).unwrap();
    assert_eq!(
        rows,
        vec![
            strings(&["x", "y"]),
            strings(&["a,b", "say \"hi\""]),
            strings(&["two\nlines", "z"]),
        ]
    );
}

#[test]
fn parse_empty_text_with_headers_has_empty_header_row() {
    let rows = parse("", true).unwrap();
    assert_eq!(rows, vec![Vec::<String>::new()]);
    let input = object(vec![("data", text(""))]);
    let result = parse_csv(&input).unwrap();
    assert_eq!(result.get("row_count"), Some(&Node::Number("1".to_string())));
}

#[test]
fn parse_empty_text_without_headers_has_no_rows() {
    assert_eq!(parse("", false).unwrap(), Vec::<Vec<String>>::new());
}

#[test]
fn parse_headers_flag_defaults_to_true_when_not_boolean() {
    let input = object(vec![("data", text("")), ("headers", text("no"))]);
    let result = parse_csv(&input).unwrap();
    assert_eq!(result.to_json(), "{\"rows\":[[]],\"row_count\":1}");
    let input = object(vec![("data", text("")), ("headers", Node::Bool(false))]);
    let result = parse_csv(&input).unwrap();
    assert_eq!(result.to_json(), "{\"rows\":[],\"row_count\":0}");
}

#[test]
fn parse_missing_data_is_an_error() {
    let input = object(vec![("headers", Node::Bool(true))]);
    assert_eq!(
        parse_csv(&input),
        Err(PluginError::InvalidPayloadShape("Missing 'data' field".to_string()))
    );
    let input = object(vec![("data", Node::Number("5".to_string()))]);
    assert_eq!(
        parse_csv(&input),
        Err(PluginError::InvalidPayloadShape("Missing 'data' field".to_string()))
    );
}

#[test]
fn records_pair_fields_with_headers() {
    let recs = to_records("name,age\nAlice,30\nBob,25").unwrap();
    let pair = |a: &str, b: &str| (a.to_string(), b.to_string());
    assert_eq!(
        recs,
        vec![
            vec![pair("name", "Alice"), pair("age", "30")],
            vec![pair("name", "Bob"), pair("age", "25")],
        ]
    );
}

#[test]
fn records_response_objects_and_count() {
    let input = object(vec![("data", text("name,age\nAlice,30\nBob,25"))]);
    let result = csv_to_json(&input).unwrap();
    assert_eq!(
        result.to_json(),
        "{\"objects\":[{\"name\":\"Alice\",\"age\":\"30\"},{\"name\":\"Bob\",\"age\":\"25\"}],\"count\":2}"
    );
}

#[test]
fn records_short_row_keeps_its_fields_only() {
    let recs = to_records("a,b,c\n1,2").unwrap();
    assert_eq!(recs, vec![vec![("a".to_string(), "1".to_string()), ("b".to_string(), "2".to_string())]]);
}

#[test]
fn records_long_row_drops_extra_fields() {
    let recs = to_records("a\n1,2,3").unwrap();
    assert_eq!(recs, vec![vec![("a".to_string(), "1".to_string())]]);
}

#[test]
fn records_of_header_only_text_are_empty() {
    assert_eq!(to_records("a,b").unwrap(), Vec::<Vec<(String, String)>>::new());
    assert_eq!(to_records("").unwrap(), Vec::<Vec<(String, String)>>::new());
}

#[test]
fn format_quotes_field_with_delimiter() {
    let rows = vec![strings(&["a", "b"]), strings(&["1,2", "3"])];
    let text = plugin_rust_csv::codec::format(&rows, b',').unwrap();
    assert_eq!(text, "a,b\n\"1,2\",3\n");
}

#[test]
fn format_quotes_quote_and_newline() {
    let rows = vec![strings(&["say \"hi\"", "two\nlines", "plain"])];
    let text = plugin_rust_csv::codec::format(&rows, b',').unwrap();
    assert_eq!(text, "\"say \"\"hi\"\"\",\"two\nlines\",plain\n");
}

#[test]
fn format_csv_response_and_default_delimiter() {
    let rows = Node::Array(vec![
        Node::Array(vec![text("a"), text("b")]),
        Node::Array(vec![text("1,2"), text("3")]),
    ]);
    let input = object(vec![("rows", rows)]);
    let result = format_csv(&input).unwrap();
    assert_eq!(result, object(vec![("csv", text("a,b\n\"1,2\",3\n"))]));
}

#[test]
fn format_csv_with_semicolon_delimiter() {
    let rows = Node::Array(vec![Node::Array(vec![text("a;b"), text("c,d")])]);
    let input = object(vec![("rows", rows), ("delimiter", text(";"))]);
    let result = format_csv(&input).unwrap();
    assert_eq!(result.get("csv"), Some(&text("\"a;b\";c,d\n")));
}

#[test]
fn format_csv_empty_delimiter_means_comma() {
    let rows = Node::Array(vec![Node::Array(vec![text("x"), text("y")])]);
    let input = object(vec![("rows", rows), ("delimiter", text(""))]);
    assert_eq!(format_csv(&input).unwrap().get("csv"), Some(&text("x,y\n")));
}

#[test]
fn format_csv_coerces_other_nodes_to_json_text() {
    let cells = vec![
        Node::Number("1.5".to_string()),
        Node::Bool(true),
        Node::Null,
        Node::Array(vec![Node::Number("1".to_string()), text("x")]),
    ];
    let input = object(vec![("rows", Node::Array(vec![Node::Array(cells)]))]);
    let result = format_csv(&input).unwrap();
    assert_eq!(result.get("csv"), Some(&text("1.5,true,null,\"[1,\"\"x\"\"]\"\n")));
}

#[test]
fn format_csv_row_not_array_is_an_error() {
    let input = object(vec![("rows", Node::Array(vec![text("a,b")]))]);
    assert_eq!(
        format_csv(&input),
        Err(PluginError::InvalidArgument("Row must be an array".to_string()))
    );
}

#[test]
fn format_csv_missing_rows_is_an_error() {
    let input = object(vec![("rows", text("a"))]);
    assert_eq!(
        format_csv(&input),
        Err(PluginError::InvalidPayloadShape("Missing 'rows' field".to_string()))
    );
}

#[test]
fn format_csv_bad_delimiter_is_an_error() {
    let rows = Node::Array(vec![Node::Array(vec![text("x")])]);
    let expected = Err(PluginError::InvalidArgument(
        "Delimiter must be a single ASCII character".to_string(),
    ));
    let input = object(vec![("rows", rows), ("delimiter", text(";;"))]);
    assert_eq!(format_csv(&input), expected);
    let rows = Node::Array(vec![Node::Array(vec![text("x")])]);
    let input = object(vec![("rows", rows), ("delimiter", text("é"))]);
    assert_eq!(format_csv(&input), expected);
}

#[test]
fn parse_then_format_then_parse_is_stable() {
    let source = "name,note\nAlice,\"likes \"\"tea\"\", coffee\"\nBob,\"line one\nline two\"";
    let rows = parse(source, true).unwrap();
    let text = plugin_rust_csv::codec::format(&rows, b',').unwrap();
    assert_eq!(parse(&text, true).unwrap(), rows);
    let again = plugin_rust_csv::codec::format(&parse(&text, true).unwrap(), b',').unwrap();
    assert_eq!(again, text);
}

#[test]
fn route_unknown_action() {
    let result = route("bogus-action", &Node::Object(vec![]));
    assert_eq!(
        result,
        Err(PluginError::UnknownAction("Unknown action: bogus-action".to_string()))
    );
    assert_eq!(respond(result).to_json(), "{\"error\":\"Unknown action: bogus-action\"}");
}

#[test]
fn route_accepts_synonyms() {
    let input = object(vec![("data", text("a\n1"))]);
    for name in ["parse-csv", "parsecsv", "readcsv"] {
        assert_eq!(route(name, &input), parse_csv(&input));
    }
    for name in ["csv-to-json", "csvtojson"] {
        assert_eq!(route(name, &input), csv_to_json(&input));
    }
    let input = object(vec![("rows", Node::Array(vec![]))]);
    for name in ["format-csv", "formatcsv", "writecsv"] {
        assert_eq!(route(name, &input), format_csv(&input));
    }
    assert!(route("ParseCSV", &input).is_err());
}

#[test]
fn records_repeated_header_keeps_first_place_and_last_value() {
    let recs = to_records("a,b,a\n1,2,3").unwrap();
    assert_eq!(recs, vec![vec![("a".to_string(), "3".to_string()), ("b".to_string(), "2".to_string())]]);
    let input = object(vec![("data", text("k,k\nx,y\nz"))]);
    assert_eq!(
        csv_to_json(&input).unwrap().to_json(),
        "{\"objects\":[{\"k\":\"y\"},{\"k\":\"z\"}],\"count\":2}"
    );
}

#[test]
fn format_empty_record_and_lone_empty_field() {
    let rows = vec![Vec::new(), strings(&[""]), strings(&["", ""]), strings(&["a\rb"])];
    let text = plugin_rust_csv::codec::format(&rows, b',').unwrap();
    assert_eq!(text, "\"\"\n\"\"\n,\n\"a\rb\"\n");
}

#[test]
fn format_rejects_non_ascii_delimiter_byte() {
    let rows = vec![strings(&["a", "b"])];
    assert_eq!(
        plugin_rust_csv::codec::format(&rows, 200),
        Err(plugin_rust_csv::codec::CodecError::InvalidArgument(
            "Delimiter must be a single ASCII character".to_string()
        ))
    );
}

#[test]
fn format_csv_accepts_rows_of_unequal_length() {
    let rows = Node::Array(vec![
        Node::Array(vec![text("a"), text("b")]),
        Node::Array(vec![text("1")]),
    ]);
    let input = object(vec![("rows", rows)]);
    assert_eq!(format_csv(&input), Ok(object(vec![("csv", text("a,b\n1\n"))])));
}

#[test]
fn format_csv_of_no_rows_is_empty_text() {
    let input = object(vec![("rows", Node::Array(vec![]))]);
    assert_eq!(format_csv(&input), Ok(object(vec![("csv", text(""))])));
}

#[test]
fn format_csv_absent_empty_and_comma_delimiters_agree() {
    let rows = || Node::Array(vec![Node::Array(vec![text("p,q"), text("r")])]);
    let absent = format_csv(&object(vec![("rows", rows())]));
    let empty = format_csv(&object(vec![("rows", rows()), ("delimiter", text(""))]));
    let comma = format_csv(&object(vec![("rows", rows()), ("delimiter", text(","))]));
    assert_eq!(absent, Ok(object(vec![("csv", text("\"p,q\",r\n"))])));
    assert_eq!(empty, absent);
    assert_eq!(comma, absent);
}

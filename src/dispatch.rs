use vstd::prelude::*;

use crate::codec::{
    csv_records_of,
    csv_text,
    parse,
    parsed_table,
    records_of,
    records_view,
    row_view,
    table_view,
    to_records,
    CodecError,
};
use crate::node::{decimal, json_of, member_of, same_text, Node};

verus! {

/// An operation that a request can name.
#[derive(Debug, PartialEq, Eq, Clone, Copy)]
pub enum Action {
    ParseCsv,
    FormatCsv,
    CsvToJson,
}

/// The operation that an action name (canonical or synonym) stands for.
pub open spec fn action_spec(name: Seq<char>) -> Option<Action> {
    if name == "parse-csv"@ || name == "parsecsv"@ || name == "readcsv"@ {
        Some(Action::ParseCsv)
    } else if name == "format-csv"@ || name == "formatcsv"@ || name == "writecsv"@ {
        Some(Action::FormatCsv)
    } else if name == "csv-to-json"@ || name == "csvtojson"@ {
        Some(Action::CsvToJson)
    } else {
        None
    }
}

/// Looks an action name up in the synonym table.
pub fn action_of(name: &str) -> (r: Option<Action>)
    ensures
        r == action_spec(name@),
{
    if same_text(name, "parse-csv") || same_text(name, "parsecsv") || same_text(name, "readcsv") {
        Some(Action::ParseCsv)
    } else if same_text(name, "format-csv") || same_text(name, "formatcsv") || same_text(
        name,
        "writecsv",
    ) {
        Some(Action::FormatCsv)
    } else if same_text(name, "csv-to-json") || same_text(name, "csvtojson") {
        Some(Action::CsvToJson)
    } else {
        None
    }
}

/// Why a request failed; each variant holds the message that the error
/// response carries.
#[derive(Debug, PartialEq)]
pub enum PluginError {
    /// A required input was absent.
    NullInput(String),
    /// An input was not valid text.
    InvalidEncoding(String),
    /// The payload misses a required field or has one of the wrong kind.
    InvalidPayloadShape(String),
    /// The delimited text could not be split into records.
    MalformedInput(String),
    /// An argument has a value that the operation cannot take.
    InvalidArgument(String),
    /// The output could not be encoded.
    SerializationFailure(String),
    /// The action names no operation.
    UnknownAction(String),
}

impl PluginError {
    /// The message that the error carries.
    pub open spec fn message_spec(&self) -> Seq<char> {
        match self {
            PluginError::NullInput(m) => m@,
            PluginError::InvalidEncoding(m) => m@,
            PluginError::InvalidPayloadShape(m) => m@,
            PluginError::MalformedInput(m) => m@,
            PluginError::InvalidArgument(m) => m@,
            PluginError::SerializationFailure(m) => m@,
            PluginError::UnknownAction(m) => m@,
        }
    }

    /// The message that the error response carries.
    pub fn message(&self) -> (r: String)
        ensures
            r@ == self.message_spec(),
    {
        match self {
            PluginError::NullInput(m) => m.clone(),
            PluginError::InvalidEncoding(m) => m.clone(),
            PluginError::InvalidPayloadShape(m) => m.clone(),
            PluginError::MalformedInput(m) => m.clone(),
            PluginError::InvalidArgument(m) => m.clone(),
            PluginError::SerializationFailure(m) => m.clone(),
            PluginError::UnknownAction(m) => m.clone(),
        }
    }
}

fn joined(a: &str, b: &str) -> (r: String)
    ensures
        r@ == a@ + b@,
{
    let mut s = String::from_str(a);
    s.append(b);
    s
}

/// The text of a text node.
pub open spec fn text_of_node(n: Node) -> Option<Seq<char>> {
    match n {
        Node::Text(s) => Some(s@),
        _ => None,
    }
}

/// `n` is an array of text nodes holding `row`.
pub open spec fn holds_row(n: Node, row: Seq<Seq<char>>) -> bool {
    match n {
        Node::Array(cells) => cells@.len() == row.len() && forall|j: int|
            0 <= j < row.len() ==> #[trigger] text_of_node(cells@[j]) == Some(row[j]),
        _ => false,
    }
}

/// `n` is an array of rows holding `table`.
pub open spec fn holds_table(n: Node, table: Seq<Seq<Seq<char>>>) -> bool {
    match n {
        Node::Array(rows) => rows@.len() == table.len() && forall|i: int|
            0 <= i < table.len() ==> #[trigger] holds_row(rows@[i], table[i]),
        _ => false,
    }
}

/// `n` is an object whose members are the pairs of `rec`, in order, with text values.
pub open spec fn holds_record(n: Node, rec: Seq<(Seq<char>, Seq<char>)>) -> bool {
    match n {
        Node::Object(ms) => ms@.len() == rec.len() && forall|j: int|
            0 <= j < rec.len() ==> (#[trigger] ms@[j]).0@ == rec[j].0 && text_of_node(ms@[j].1)
                == Some(rec[j].1),
        _ => false,
    }
}

/// `n` is an array of objects holding `recs`.
pub open spec fn holds_records(n: Node, recs: Seq<Seq<(Seq<char>, Seq<char>)>>) -> bool {
    match n {
        Node::Array(objs) => objs@.len() == recs.len() && forall|i: int|
            0 <= i < recs.len() ==> #[trigger] holds_record(objs@[i], recs[i]),
        _ => false,
    }
}

/// `n` is a number node for the count `k`.
pub open spec fn holds_count(n: Node, k: nat) -> bool {
    n matches Node::Number(t) && t@ == decimal(k)
}

/// The success shape of parsing: `{rows, row_count}`.
pub open spec fn is_rows_response(n: Node, table: Seq<Seq<Seq<char>>>) -> bool {
    n matches Node::Object(ms) && ms@.len() == 2 && ms@[0].0@ == "rows"@ && holds_table(
        ms@[0].1,
        table,
    ) && ms@[1].0@ == "row_count"@ && holds_count(ms@[1].1, table.len())
}

/// The success shape of formatting: `{csv}`.
pub open spec fn is_csv_response(n: Node, text: Seq<char>) -> bool {
    n matches Node::Object(ms) && ms@.len() == 1 && ms@[0].0@ == "csv"@ && text_of_node(ms@[0].1)
        == Some(text)
}

/// The success shape of the record conversion: `{objects, count}`.
pub open spec fn is_objects_response(n: Node, recs: Seq<Seq<(Seq<char>, Seq<char>)>>) -> bool {
    n matches Node::Object(ms) && ms@.len() == 2 && ms@[0].0@ == "objects"@ && holds_records(
        ms@[0].1,
        recs,
    ) && ms@[1].0@ == "count"@ && holds_count(ms@[1].1, recs.len())
}

/// `n` is the error response `{error: message}`.
pub open spec fn is_error_response(n: Node, message: Seq<char>) -> bool {
    n matches Node::Object(ms) && ms@.len() == 1 && ms@[0].0@ == "error"@ && text_of_node(
        ms@[0].1,
    ) == Some(message)
}

/// Whether the payload asks for a header row: `headers` if it is a boolean, else true.
pub open spec fn headers_flag(payload: Node) -> bool {
    match member_of(payload, "headers"@) {
        Some(Node::Bool(b)) => b,
        _ => true,
    }
}

/// The delimiter byte that the payload asks for: a comma where `delimiter` is
/// absent, not text or empty; its one character where that is ASCII; else none.
pub open spec fn delimiter_spec(payload: Node) -> Option<u8> {
    match member_of(payload, "delimiter"@) {
        Some(Node::Text(s)) => if s@.len() == 0 {
            Some(44u8)
        } else if s@.len() == 1 && (s@[0] as u32) < 128 {
            Some((s@[0] as u32) as u8)
        } else {
            None
        },
        _ => Some(44u8),
    }
}

/// The text form of a cell: a string as it is, any other node as its JSON text.
pub open spec fn cell_text(c: Node) -> Seq<char> {
    match c {
        Node::Text(s) => s@,
        _ => json_of(c),
    }
}

/// The fields of each row node, where each is an array.
pub open spec fn cells_table(rows: Seq<Node>) -> Seq<Seq<Seq<char>>> {
    rows.map_values(
        |row: Node|
            match row {
                Node::Array(cells) => cells@.map_values(|c: Node| cell_text(c)),
                _ => Seq::empty(),
            },
    )
}

/// Every row node is an array.
pub open spec fn all_arrays(rows: Seq<Node>) -> bool {
    forall|i: int| 0 <= i < rows.len() ==> #[trigger] rows[i] is Array
}

/// What parsing answers for `payload`.
pub open spec fn parse_csv_spec(payload: Node, r: Result<Node, PluginError>) -> bool {
    match member_of(payload, "data"@) {
        Some(Node::Text(d)) => match csv_records_of(d@) {
            Some(recs) => r matches Ok(n) && is_rows_response(
                n,
                parsed_table(recs, headers_flag(payload)),
            ),
            None => r matches Err(PluginError::MalformedInput(_)),
        },
        _ => r matches Err(PluginError::InvalidPayloadShape(m)) && m@ == "Missing 'data' field"@,
    }
}

/// What formatting answers for `payload`.
pub open spec fn format_csv_spec(payload: Node, r: Result<Node, PluginError>) -> bool {
    match member_of(payload, "rows"@) {
        Some(Node::Array(rows)) => match delimiter_spec(payload) {
            None => r matches Err(PluginError::InvalidArgument(m)) && m@
                == "Delimiter must be a single ASCII character"@,
            Some(d) => if !all_arrays(rows@) {
                r matches Err(PluginError::InvalidArgument(m)) && m@ == "Row must be an array"@
            } else {
                r matches Ok(n) && is_csv_response(n, csv_text(cells_table(rows@), d as char))
            },
        },
        _ => r matches Err(PluginError::InvalidPayloadShape(m)) && m@ == "Missing 'rows' field"@,
    }
}

/// What the record conversion answers for `payload`.
pub open spec fn csv_to_json_spec(payload: Node, r: Result<Node, PluginError>) -> bool {
    match member_of(payload, "data"@) {
        Some(Node::Text(d)) => match csv_records_of(d@) {
            Some(table) => r matches Ok(n) && is_objects_response(n, records_of(table)),
            None => r matches Err(PluginError::MalformedInput(_)),
        },
        _ => r matches Err(PluginError::InvalidPayloadShape(m)) && m@ == "Missing 'data' field"@,
    }
}

/// A text node for each field of `row`.
pub fn row_node(row: &Vec<String>) -> (r: Node)
    ensures
        holds_row(r, row_view(*row)),
{
    let mut cells: Vec<Node> = Vec::new();
    let mut j: usize = 0;
    while j < row.len()
        invariant
            j <= row@.len(),
            cells@.len() == j,
            forall|k: int| 0 <= k < j ==> #[trigger] text_of_node(cells@[k]) == Some(row@[k]@),
        decreases row@.len() - j,
    {
        cells.push(Node::Text(row[j].clone()));
        j = j + 1;
    }
    Node::Array(cells)
}

/// An array node for `table`, one array of text nodes per row.
pub fn table_node(table: &Vec<Vec<String>>) -> (r: Node)
    ensures
        holds_table(r, table_view(table@)),
{
    let mut rows: Vec<Node> = Vec::new();
    let mut i: usize = 0;
    while i < table.len()
        invariant
            i <= table@.len(),
            rows@.len() == i,
            forall|k: int| 0 <= k < i ==> #[trigger] holds_row(rows@[k], row_view(table@[k])),
        decreases table@.len() - i,
    {
        rows.push(row_node(&table[i]));
        i = i + 1;
    }
    Node::Array(rows)
}

/// An array node for `recs`, one object per record.
pub fn records_node(recs: &Vec<Vec<(String, String)>>) -> (r: Node)
    ensures
        holds_records(r, records_view(recs@)),
{
    let mut objs: Vec<Node> = Vec::new();
    let mut i: usize = 0;
    while i < recs.len()
        invariant
            i <= recs@.len(),
            objs@.len() == i,
            forall|k: int|
                0 <= k < i ==> #[trigger] holds_record(objs@[k], records_view(recs@)[k]),
        decreases recs@.len() - i,
    {
        let rec = &recs[i];
        let mut ms: Vec<(String, Node)> = Vec::new();
        let mut j: usize = 0;
        while j < rec.len()
            invariant
                i < recs@.len(),
                *rec == recs@[i as int],
                j <= rec@.len(),
                ms@.len() == j,
                forall|k: int|
                    0 <= k < j ==> (#[trigger] ms@[k]).0@ == rec@[k].0@ && text_of_node(ms@[k].1)
                        == Some(rec@[k].1@),
            decreases rec@.len() - j,
        {
            ms.push((rec[j].0.clone(), Node::Text(rec[j].1.clone())));
            j = j + 1;
        }
        objs.push(Node::Object(ms));
        i = i + 1;
    }
    Node::Array(objs)
}

/// The error response `{error: message}` for `e`.
pub fn error_response(e: &PluginError) -> (r: Node)
    ensures
        is_error_response(r, e.message_spec()),
{
    Node::Object(vec![(String::from_str("error"), Node::Text(e.message()))])
}

/// The response envelope: the success payload, or the error response.
pub fn respond(result: Result<Node, PluginError>) -> (r: Node)
    ensures
        match result {
            Ok(n) => r == n,
            Err(e) => is_error_response(r, e.message_spec()),
        },
{
    match result {
        Ok(n) => n,
        Err(e) => error_response(&e),
    }
}

fn missing_field(message: &str) -> (r: PluginError)
    ensures
        r matches PluginError::InvalidPayloadShape(m) && m@ == message@,
{
    PluginError::InvalidPayloadShape(String::from_str(message))
}

fn read_failure(e: CodecError) -> (r: PluginError)
    ensures
        r is MalformedInput,
{
    match e {
        CodecError::MalformedInput(m) => PluginError::MalformedInput(
            joined("Failed to read record: ", m.as_str()),
        ),
        CodecError::InvalidArgument(m) => PluginError::MalformedInput(m),
    }
}

/// The `headers` flag of a payload: its boolean value, true where absent.
pub fn headers_of(payload: &Node) -> (r: bool)
    ensures
        r == headers_flag(*payload),
{
    match payload.get("headers") {
        Some(Node::Bool(b)) => *b,
        _ => true,
    }
}

/// The delimiter byte that a payload asks for.
pub fn delimiter_of(payload: &Node) -> (r: Option<u8>)
    ensures
        r == delimiter_spec(*payload),
{
    match payload.get("delimiter") {
        Some(Node::Text(s)) => {
            let n = s.as_str().unicode_len();
            if n == 0 {
                Some(44u8)
            } else if n == 1 {
                let c = s.as_str().get_char(0);
                if (c as u32) < 128 {
                    Some((c as u32) as u8)
                } else {
                    None
                }
            } else {
                None
            }
        },
        _ => Some(44u8),
    }
}

/// Parses the payload's `data` into rows: `{rows, row_count}`.
pub fn parse_csv(input: &Node) -> (r: Result<Node, PluginError>)
    ensures
        parse_csv_spec(*input, r),
{
    let data = match input.get("data") {
        Some(Node::Text(d)) => d,
        _ => return Err(missing_field("Missing 'data' field")),
    };
    let headers = headers_of(input);
    match parse(data.as_str(), headers) {
        Ok(rows) => {
            let n = rows.len();
            let table = table_node(&rows);
            Ok(
                Node::Object(
                    vec![
                        (String::from_str("rows"), table),
                        (String::from_str("row_count"), Node::count(n)),
                    ],
                ),
            )
        },
        Err(e) => Err(read_failure(e)),
    }
}

/// The fields of each row of `rows`, or `None` where a row is not an array.
pub fn rows_fields(rows: &Vec<Node>) -> (r: Option<Vec<Vec<String>>>)
    ensures
        match r {
            Some(t) => all_arrays(rows@) && table_view(t@) == cells_table(rows@),
            None => !all_arrays(rows@),
        },
{
    let mut table: Vec<Vec<String>> = Vec::new();
    let mut i: usize = 0;
    while i < rows.len()
        invariant
            i <= rows@.len(),
            table@.len() == i,
            forall|k: int| 0 <= k < i ==> (#[trigger] rows@[k]) is Array,
            forall|k: int|
                0 <= k < i ==> #[trigger] row_view(table@[k]) == cells_table(rows@)[k],
        decreases rows@.len() - i,
    {
        match &rows[i] {
            Node::Array(cells) => {
                let mut fields: Vec<String> = Vec::new();
                let mut j: usize = 0;
                while j < cells.len()
                    invariant
                        i < rows@.len(),
                        rows@[i as int] == Node::Array(*cells),
                        j <= cells@.len(),
                        fields@.len() == j,
                        forall|k: int|
                            0 <= k < j ==> #[trigger] fields@[k]@ == cell_text(cells@[k]),
                    decreases cells@.len() - j,
                {
                    let field = match &cells[j] {
                        Node::Text(s) => s.clone(),
                        other => other.to_json(),
                    };
                    fields.push(field);
                    j = j + 1;
                }
                assert(row_view(fields) =~= cells_table(rows@)[i as int]);
                table.push(fields);
            },
            _ => {
                return None;
            },
        }
        i = i + 1;
    }
    assert(table_view(table@) =~= cells_table(rows@));
    Some(table)
}

/// Renders the payload's `rows` as delimited text: `{csv}`.
pub fn format_csv(input: &Node) -> (r: Result<Node, PluginError>)
    ensures
        format_csv_spec(*input, r),
{
    let rows = match input.get("rows") {
        Some(Node::Array(rows)) => rows,
        _ => return Err(missing_field("Missing 'rows' field")),
    };
    let delimiter = match delimiter_of(input) {
        Some(d) => d,
        None => {
            return Err(
                PluginError::InvalidArgument(
                    String::from_str("Delimiter must be a single ASCII character"),
                ),
            )
        },
    };
    let fields = match rows_fields(rows) {
        Some(t) => t,
        None => return Err(PluginError::InvalidArgument(String::from_str("Row must be an array"))),
    };
    match crate::codec::format(&fields, delimiter) {
        Ok(text) => Ok(Node::Object(vec![(String::from_str("csv"), Node::Text(text))])),
        Err(CodecError::MalformedInput(m)) => Err(PluginError::InvalidArgument(m)),
        Err(CodecError::InvalidArgument(m)) => Err(PluginError::InvalidArgument(m)),
    }
}

/// Converts the payload's `data` into records: `{objects, count}`.
pub fn csv_to_json(input: &Node) -> (r: Result<Node, PluginError>)
    ensures
        csv_to_json_spec(*input, r),
{
    let data = match input.get("data") {
        Some(Node::Text(d)) => d,
        _ => return Err(missing_field("Missing 'data' field")),
    };
    match to_records(data.as_str()) {
        Ok(recs) => {
            let n = recs.len();
            let objects = records_node(&recs);
            Ok(
                Node::Object(
                    vec![
                        (String::from_str("objects"), objects),
                        (String::from_str("count"), Node::count(n)),
                    ],
                ),
            )
        },
        Err(e) => Err(read_failure(e)),
    }
}

/// What routing answers for `action` and `payload`.
pub open spec fn route_spec(action: Seq<char>, payload: Node, r: Result<Node, PluginError>) -> bool {
    match action_spec(action) {
        Some(Action::ParseCsv) => parse_csv_spec(payload, r),
        Some(Action::FormatCsv) => format_csv_spec(payload, r),
        Some(Action::CsvToJson) => csv_to_json_spec(payload, r),
        None => r matches Err(PluginError::UnknownAction(m)) && m@ == "Unknown action: "@ + action,
    }
}

/// Routes a request to the operation that its action names.
pub fn route(action: &str, payload: &Node) -> (r: Result<Node, PluginError>)
    ensures
        route_spec(action@, *payload, r),
{
    match action_of(action) {
        Some(Action::ParseCsv) => parse_csv(payload),
        Some(Action::FormatCsv) => format_csv(payload),
        Some(Action::CsvToJson) => csv_to_json(payload),
        None => Err(PluginError::UnknownAction(joined("Unknown action: ", action))),
    }
}

} // verus!

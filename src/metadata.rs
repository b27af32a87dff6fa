use vstd::prelude::*;

use crate::dispatch::{holds_row, text_of_node};
use crate::node::Node;

verus! {

/// `n` describes one action: its name, the role `own`, and the verbs and
/// prepositions that reach it.
pub open spec fn is_action_def(
    n: Node,
    name: Seq<char>,
    verbs: Seq<Seq<char>>,
    prepositions: Seq<Seq<char>>,
) -> bool {
    n matches Node::Object(ms) && ms@.len() == 4 && ms@[0].0@ == "name"@ && text_of_node(ms@[0].1)
        == Some(name) && ms@[1].0@ == "role"@ && text_of_node(ms@[1].1) == Some("own"@)
        && ms@[2].0@ == "verbs"@ && holds_row(ms@[2].1, verbs) && ms@[3].0@ == "prepositions"@
        && holds_row(ms@[3].1, prepositions)
}

/// `n` lists the three actions that the module offers.
pub open spec fn is_action_list(n: Node) -> bool {
    n matches Node::Array(acts) && acts@.len() == 3 && is_action_def(
        acts@[0],
        "ParseCSV"@,
        seq!["parsecsv"@, "readcsv"@],
        seq!["from"@, "with"@],
    ) && is_action_def(
        acts@[1],
        "FormatCSV"@,
        seq!["formatcsv"@, "writecsv"@],
        seq!["from"@, "with"@],
    ) && is_action_def(acts@[2], "CSVToJSON"@, seq!["csvtojson"@], seq!["from"@])
}

/// `n` is the module's metadata: its name, version and the actions it offers.
pub open spec fn is_plugin_info(n: Node) -> bool {
    n matches Node::Object(ms) && ms@.len() == 3 && ms@[0].0@ == "name"@ && text_of_node(ms@[0].1)
        == Some("plugin-rust-csv"@) && ms@[1].0@ == "version"@ && text_of_node(ms@[1].1) == Some(
        "1.0.0"@,
    ) && ms@[2].0@ == "actions"@ && is_action_list(ms@[2].1)
}

fn text_node(s: &str) -> (r: Node)
    ensures
        text_of_node(r) == Some(s@),
{
    Node::Text(String::from_str(s))
}

fn action_def(name: &str, verbs: Vec<&str>, prepositions: Vec<&str>) -> (r: Node)
    ensures
        is_action_def(
            r,
            name@,
            verbs@.map_values(|v: &str| v@),
            prepositions@.map_values(|p: &str| p@),
        ),
{
    let v = text_list(&verbs);
    let p = text_list(&prepositions);
    Node::Object(
        vec![
            (String::from_str("name"), text_node(name)),
            (String::from_str("role"), text_node("own")),
            (String::from_str("verbs"), v),
            (String::from_str("prepositions"), p),
        ],
    )
}

fn text_list(items: &Vec<&str>) -> (r: Node)
    ensures
        holds_row(r, items@.map_values(|s: &str| s@)),
{
    let mut nodes: Vec<Node> = Vec::new();
    let mut i: usize = 0;
    while i < items.len()
        invariant
            i <= items@.len(),
            nodes@.len() == i,
            forall|k: int| 0 <= k < i ==> #[trigger] text_of_node(nodes@[k]) == Some(items@[k]@),
        decreases items@.len() - i,
    {
        nodes.push(text_node(items[i]));
        i = i + 1;
    }
    Node::Array(nodes)
}

/// The module's metadata, for discovery by the host.
pub fn plugin_info() -> (r: Node)
    ensures
        is_plugin_info(r),
{
    let parse = action_def("ParseCSV", vec!["parsecsv", "readcsv"], vec!["from", "with"]);
    let format = action_def("FormatCSV", vec!["formatcsv", "writecsv"], vec!["from", "with"]);
    let to_json = action_def("CSVToJSON", vec!["csvtojson"], vec!["from"]);
    assert(seq!["parsecsv", "readcsv"].map_values(|v: &str| v@) =~= seq!["parsecsv"@, "readcsv"@]);
    assert(seq!["from", "with"].map_values(|v: &str| v@) =~= seq!["from"@, "with"@]);
    assert(seq!["formatcsv", "writecsv"].map_values(|v: &str| v@) =~= seq![
        "formatcsv"@,
        "writecsv"@,
    ]);
    assert(seq!["csvtojson"].map_values(|v: &str| v@) =~= seq!["csvtojson"@]);
    assert(seq!["from"].map_values(|v: &str| v@) =~= seq!["from"@]);
    Node::Object(
        vec![
            (String::from_str("name"), text_node("plugin-rust-csv")),
            (String::from_str("version"), text_node("1.0.0")),
            (String::from_str("actions"), Node::Array(vec![parse, format, to_json])),
        ],
    )
}

} // verus!

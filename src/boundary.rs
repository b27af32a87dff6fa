use vstd::prelude::*;

use crate::dispatch::{error_response, is_error_response, respond, route, route_spec, PluginError};
use crate::metadata::plugin_info;
use crate::node::{json_of, json_members, quoted, Node};

verus! {

/// The action name as the host handed it over.
#[derive(Debug, PartialEq)]
pub enum Inbound {
    /// The pointer was null.
    Null,
    /// The bytes were not valid UTF-8.
    NotText,
    /// The text.
    Text(String),
}

/// The payload as the host handed it over, read as JSON where it is text.
#[derive(Debug, PartialEq)]
pub enum Payload {
    /// The pointer was null.
    Null,
    /// The bytes were not valid UTF-8.
    NotText,
    /// The text is not JSON; the parser's message.
    Malformed(String),
    /// The payload tree.
    Parsed(Node),
}

/// The JSON text of the error response `{error: message}`.
pub open spec fn error_text(message: Seq<char>) -> Seq<char> {
    seq!['{'] + quoted("error"@) + seq![':'] + quoted(message) + seq!['}']
}

/// The JSON text of a response envelope.
pub open spec fn response_json(res: Result<Node, PluginError>) -> Seq<char> {
    match res {
        Ok(n) => json_of(n),
        Err(e) => error_text(e.message_spec()),
    }
}

/// What a call answers, given its decoded inputs.
pub open spec fn execute_spec(action: Inbound, payload: Payload, r: Seq<char>) -> bool {
    match action {
        Inbound::Null => r == error_text("Action is null"@),
        Inbound::NotText => r == error_text("Invalid action string"@),
        Inbound::Text(a) => match payload {
            Payload::Null => r == error_text("Input is null"@),
            Payload::NotText => r == error_text("Invalid input string"@),
            Payload::Malformed(e) => r == error_text("Invalid JSON input: "@ + e@),
            Payload::Parsed(p) => exists|res: Result<Node, PluginError>|
                route_spec(a@, p, res) && r == response_json(res),
        },
    }
}

/// A call whose action pointer is null answers, whatever its payload, with
/// the error response `{"error":"Action is null"}`; the payload is not looked at.
pub proof fn lemma_null_action_is_rejected(payload: Payload, r: Seq<char>)
    requires
        execute_spec(Inbound::Null, payload, r),
    ensures
        r == error_text("Action is null"@),
        r == seq!['{'] + quoted("error"@) + seq![':'] + quoted("Action is null"@) + seq!['}'],
        forall|other: Payload| #[trigger] execute_spec(Inbound::Null, other, r),
{
}

/// The JSON text of a response envelope.
pub fn response_text(res: Result<Node, PluginError>) -> (r: String)
    ensures
        r@ == response_json(res),
{
    let ghost g = res;
    let n = respond(res);
    proof {
        if let Err(e) = g {
            assert(is_error_response(n, e.message_spec()));
            let ms = n->Object_0;
            assert(json_members(ms, 1) == quoted(ms@[0].0@) + seq![':'] + json_of(ms@[0].1));
            assert(json_of(n) =~= error_text(e.message_spec()));
        }
    }
    n.to_json()
}

/// Answers one call: checks the action, then the payload, then routes.
pub fn execute(action: Inbound, payload: Payload) -> (r: String)
    ensures
        execute_spec(action, payload, r@),
{
    let a = match action {
        Inbound::Null => {
            return response_text(Err(PluginError::NullInput(String::from_str("Action is null"))));
        },
        Inbound::NotText => {
            return response_text(
                Err(PluginError::InvalidEncoding(String::from_str("Invalid action string"))),
            );
        },
        Inbound::Text(a) => a,
    };
    match payload {
        Payload::Null => response_text(
            Err(PluginError::NullInput(String::from_str("Input is null"))),
        ),
        Payload::NotText => response_text(
            Err(PluginError::InvalidEncoding(String::from_str("Invalid input string"))),
        ),
        Payload::Malformed(e) => {
            let mut m = String::from_str("Invalid JSON input: ");
            m.append(e.as_str());
            response_text(Err(PluginError::InvalidPayloadShape(m)))
        },
        Payload::Parsed(p) => {
            let res = route(a.as_str(), &p);
            let ghost g = res;
            let r = response_text(res);
            assert(route_spec(a@, p, g) && r@ == response_json(g));
            r
        },
    }
}

/// The JSON text of the module's metadata.
pub fn info_text() -> (r: String)
    ensures
        exists|n: Node| crate::metadata::is_plugin_info(n) && r@ == json_of(n),
{
    let n = plugin_info();
    let r = n.to_json();
    assert(crate::metadata::is_plugin_info(n) && r@ == json_of(n));
    r
}

} // verus!

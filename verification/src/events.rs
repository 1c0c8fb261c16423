//! What happens while nodes are included.

use vstd::prelude::*;
use vstd::string::*;
use crate::codec::{compact, compact_text};
use crate::json::{option_view, text_of, u64_of, Json, JsonView};
use crate::text::{decimal, decimal_text};

verus! {

/// The first value where there is one, else the second.
pub open spec fn first_of(first: Option<JsonView>, second: Option<JsonView>) -> Option<JsonView> {
    match first {
        Some(value) => Some(value),
        None => second,
    }
}

/// What an event is called: its member `event`, or else `type`, and `message` where that is no
/// text.
pub open spec fn event_name(value: JsonView) -> Seq<char> {
    match text_of(first_of(value.member("event"@), value.member("type"@))) {
        Some(name) => name,
        None => "message"@,
    }
}

/// The node that an event is about: the number inside its member `node`, or else its own.
pub open spec fn event_node(value: JsonView) -> Option<u64> {
    u64_of(first_of(value.member_of_member("node"@, "nodeId"@), value.member("nodeId"@)))
}

/// How the event went: its member `status`, or else `result`.
pub open spec fn event_status(value: JsonView) -> Option<Seq<char>> {
    text_of(first_of(value.member("status"@), value.member("result"@)))
}

/// An event in one line. An event with neither node nor status is shown whole.
pub open spec fn event_text(value: JsonView) -> Seq<char> {
    match (event_node(value), event_status(value)) {
        (Some(id), Some(status)) => event_name(value) + ": node="@ + decimal(id as nat)
            + " status="@ + status,
        (Some(id), None) => event_name(value) + ": node="@ + decimal(id as nat),
        (None, Some(status)) => event_name(value) + ": status="@ + status,
        (None, None) => event_name(value) + ": "@ + compact_text(value),
    }
}

/// The first member where there is one, else the second.
fn either<'a>(first: Option<&'a Json>, second: Option<&'a Json>) -> (value: Option<&'a Json>)
    ensures
        option_view(value) == first_of(option_view(first), option_view(second)),
{
    match first {
        Some(value) => Some(value),
        None => second,
    }
}

/// The event in one line.
pub fn format_inclusion_event(value: &Json) -> (text: String)
    ensures
        text@ == event_text(value@),
{
    let event: &str = match either(value.get("event"), value.get("type")) {
        Some(member) => match member.as_str() {
            Some(name) => name,
            None => "message",
        },
        None => "message",
    };
    let inner: Option<&Json> = match value.get("node") {
        Some(node) => node.get("nodeId"),
        None => None,
    };
    let node_id: Option<u64> = match either(inner, value.get("nodeId")) {
        Some(member) => member.as_u64(),
        None => None,
    };
    let status: Option<&str> = match either(value.get("status"), value.get("result")) {
        Some(member) => member.as_str(),
        None => None,
    };
    let mut text: String = event.to_owned();
    match (node_id, status) {
        (Some(node_id), Some(status)) => {
            text.append(": node=");
            text.append(decimal_text(node_id).as_str());
            text.append(" status=");
            text.append(status);
        },
        (Some(node_id), None) => {
            text.append(": node=");
            text.append(decimal_text(node_id).as_str());
        },
        (None, Some(status)) => {
            text.append(": status=");
            text.append(status);
        },
        (None, None) => {
            text.append(": ");
            text.append(compact(value).as_str());
        },
    }
    text
}

} // verus!

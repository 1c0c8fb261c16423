//! What a node of the network is called and how it is doing.

use vstd::prelude::*;
use vstd::string::*;
use crate::counts::{
    count_of, counts_determine_entries, entry_of, kept, total, StatusCounts,
};
use crate::json::{
    bool_member, list_view, nested_str, text_of, u64_member, u64_of, value_bool, value_str,
    value_u64, Json, JsonView,
};
use crate::text::{bool_text, bool_word, decimal, decimal_text, pad, padded};

verus! {

/// The number that stands for a dead node.
pub const DEAD: u64 = 3;

/// The name of a status: its number where the number has no name, `unknown` where there is none.
pub open spec fn status_text(status: JsonView) -> Seq<char> {
    match u64_of(Some(status)) {
        Some(0) => "unknown"@,
        Some(1) => "asleep"@,
        Some(2) => "awake"@,
        Some(3) => "dead"@,
        Some(4) => "alive"@,
        Some(other) => decimal(other as nat),
        None => "unknown"@,
    }
}

/// The name of the status of a node.
pub open spec fn node_status_text(node: JsonView) -> Seq<char> {
    match node.member("status"@) {
        Some(status) => status_text(status),
        None => "unknown"@,
    }
}

/// The name that a node was given, followed by manufacturer and device in brackets where both
/// are known. A node without a name goes by manufacturer and device, or by the device alone.
pub open spec fn node_label_text(node: JsonView) -> Seq<char> {
    let name = text_of(node.member("name"@));
    let manufacturer = text_of(node.member_of_member("deviceConfig"@, "manufacturer"@));
    let device = text_of(node.member_of_member("deviceConfig"@, "label"@));
    match (name, manufacturer, device) {
        (Some(name), Some(manufacturer), Some(label)) => name + " ("@ + manufacturer + " "@ + label
            + ")"@,
        (Some(name), _, _) => name,
        (None, Some(manufacturer), Some(label)) => manufacturer + " "@ + label,
        (None, None, Some(label)) => label,
        _ => "-"@,
    }
}

/// The number of a node.
pub fn node_id(node: &Json) -> (id: u64)
    ensures
        id == u64_member(node@, "nodeId"@),
{
    value_u64(node, "nodeId")
}

/// The name of a status.
pub fn status_name(value: &Json) -> (name: String)
    ensures
        name@ == status_text(value@),
{
    match value.as_u64() {
        Some(0) => "unknown".to_owned(),
        Some(1) => "asleep".to_owned(),
        Some(2) => "awake".to_owned(),
        Some(3) => "dead".to_owned(),
        Some(4) => "alive".to_owned(),
        Some(other) => decimal_text(other),
        None => "unknown".to_owned(),
    }
}

/// The name of the status of a node.
pub fn node_status(node: &Json) -> (name: String)
    ensures
        name@ == node_status_text(node@),
{
    match node.get("status") {
        Some(status) => status_name(status),
        None => "unknown".to_owned(),
    }
}

/// What a node is called.
pub fn node_label(node: &Json) -> (label: String)
    ensures
        label@ == node_label_text(node@),
{
    let name: Option<&str> = value_str(node, "name");
    let device_label: Option<&str> = nested_str(node, "deviceConfig", "label");
    let manufacturer: Option<&str> = nested_str(node, "deviceConfig", "manufacturer");
    match (name, manufacturer, device_label) {
        (Some(name), Some(manufacturer), Some(label)) => {
            let mut text: String = name.to_owned();
            text.append(" (");
            text.append(manufacturer);
            text.append(" ");
            text.append(label);
            text.append(")");
            text
        },
        (Some(name), _, _) => name.to_owned(),
        (None, Some(manufacturer), Some(label)) => {
            let mut text: String = manufacturer.to_owned();
            text.append(" ");
            text.append(label);
            text
        },
        (None, None, Some(label)) => label.to_owned(),
        _ => "-".to_owned(),
    }
}

/// How many of the nodes are ready, and how many have each status.
pub struct NetworkSummary {
    pub ready_nodes: usize,
    pub status_counts: StatusCounts,
}

/// How many of the nodes are ready.
pub open spec fn ready_count(nodes: Seq<JsonView>) -> nat
    decreases nodes.len(),
{
    if nodes.len() == 0 {
        0
    } else {
        ready_count(nodes.drop_last()) + if bool_member(nodes.last(), "ready"@) {
            1nat
        } else {
            0
        }
    }
}

/// How many of the nodes have a status of that name.
pub open spec fn status_count(nodes: Seq<JsonView>, name: Seq<char>) -> nat
    decreases nodes.len(),
{
    if nodes.len() == 0 {
        0
    } else {
        status_count(nodes.drop_last(), name) + if node_status_text(nodes.last()) == name {
            1nat
        } else {
            0
        }
    }
}

/// Whether the entries count the nodes of each status.
pub open spec fn tallies(entries: Seq<(Seq<char>, usize)>, nodes: Seq<JsonView>) -> bool {
    &&& kept(entries)
    &&& forall|name: Seq<char>| #[trigger] count_of(entries, name) == status_count(nodes, name)
}

/// The names of the statuses that nodes have, in order, each with the number of its nodes.
pub open spec fn status_entries(nodes: Seq<JsonView>) -> Seq<(Seq<char>, usize)> {
    choose|entries: Seq<(Seq<char>, usize)>| tallies(entries, nodes)
}

/// No more nodes are counted than there are.
pub proof fn counts_bounded(nodes: Seq<JsonView>, name: Seq<char>)
    ensures
        ready_count(nodes) <= nodes.len(),
        status_count(nodes, name) <= nodes.len(),
    decreases nodes.len(),
{
    if nodes.len() > 0 {
        counts_bounded(nodes.drop_last(), name);
    }
}

/// Counts the ready nodes and the nodes of each status.
pub fn summarize_network(nodes: &[Json]) -> (summary: NetworkSummary)
    ensures
        summary.ready_nodes == ready_count(list_view(nodes@)),
        tallies(summary.status_counts@, list_view(nodes@)),
        summary.status_counts@ == status_entries(list_view(nodes@)),
        total(summary.status_counts@) == nodes@.len(),
{
    let mut ready_nodes: usize = 0;
    let mut status_counts: StatusCounts = StatusCounts::new();
    let ghost views = list_view(nodes@);
    for i in 0..nodes.len()
        invariant
            views == list_view(nodes@),
            ready_nodes == ready_count(views.take(i as int)),
            tallies(status_counts@, views.take(i as int)),
            total(status_counts@) == i,
    {
        let node: &Json = &nodes[i];
        let status: String = node_status(node);
        proof {
            let longer = views.take(i + 1);
            assert(longer.drop_last() =~= views.take(i as int));
            assert(longer.last() == node@);
            counts_bounded(views.take(i as int), status@);
        }
        if value_bool(node, "ready") {
            ready_nodes = ready_nodes + 1;
        }
        let ghost before = status_counts@;
        let ghost recorded = status@;
        status_counts = status_counts.record(status);
        proof {
            assert forall|name: Seq<char>| #[trigger]
                count_of(status_counts@, name) == status_count(views.take(i + 1), name) by {
                assert(count_of(before, name) == status_count(views.take(i as int), name));
                if name != recorded {
                    assert(entry_of(status_counts@, name) == entry_of(before, name));
                }
            }
        }
    }
    proof {
        assert(views.take(views.len() as int) =~= views);
        counts_determine_entries(status_counts@, status_entries(views));
    }
    NetworkSummary { ready_nodes, status_counts }
}

/// Whether a node is dead or not ready.
pub open spec fn in_trouble(node: JsonView) -> bool {
    !bool_member(node, "ready"@) || u64_member(node, "status"@) == DEAD
}

/// The nodes that a listing names: all of them, or those that are dead or not ready.
pub open spec fn listed(nodes: Seq<JsonView>, dead_only: bool) -> Seq<JsonView> {
    if dead_only {
        nodes.filter(|node: JsonView| in_trouble(node))
    } else {
        nodes
    }
}

/// The values behind a list of references.
pub open spec fn refs_view(list: Seq<&Json>) -> Seq<JsonView> {
    list.map_values(|json: &Json| json@)
}

/// The nodes that a listing names, in the order in which they were given.
pub fn list_nodes<'a>(nodes: &'a [Json], dead_only: bool) -> (list: Vec<&'a Json>)
    ensures
        refs_view(list@) == listed(list_view(nodes@), dead_only),
{
    let mut list: Vec<&'a Json> = Vec::new();
    let ghost views = list_view(nodes@);
    let ghost wanted = |node: JsonView| in_trouble(node);
    for i in 0..nodes.len()
        invariant
            views == list_view(nodes@),
            wanted == |node: JsonView| in_trouble(node),
            refs_view(list@) == listed(views.take(i as int), dead_only),
    {
        let node: &'a Json = &nodes[i];
        let ghost before = list@;
        proof {
            reveal(Seq::filter);
            assert(views.take(i + 1).drop_last() =~= views.take(i as int));
            assert(views.take(i + 1).last() == node@);
        }
        if !dead_only || !value_bool(node, "ready") || value_u64(node, "status") == DEAD {
            list.push(node);
            assert(refs_view(list@) =~= refs_view(before).push(node@));
        }
        assert(refs_view(list@) =~= listed(views.take(i + 1), dead_only));
    }
    assert(views.take(views.len() as int) =~= views);
    list
}

/// One line of the table of nodes.
pub open spec fn table_line(
    id: Seq<char>,
    status: Seq<char>,
    ready: Seq<char>,
    listening: Seq<char>,
    sleep: Seq<char>,
    label: Seq<char>,
) -> Seq<char> {
    padded(id, 5) + " "@ + padded(status, 8) + " "@ + padded(ready, 7) + " "@ + padded(listening, 9)
        + " "@ + padded(sleep, 8) + " "@ + label
}

/// The head of the table of nodes.
pub open spec fn table_head_text() -> Seq<char> {
    table_line("NODE"@, "STATUS"@, "READY"@, "LISTENING"@, "SLEEP"@, "LABEL"@)
}

/// The line of a node in the table.
pub open spec fn table_row_text(node: JsonView) -> Seq<char> {
    table_line(
        decimal(u64_member(node, "nodeId"@) as nat),
        node_status_text(node),
        bool_text(bool_member(node, "ready"@)),
        bool_text(bool_member(node, "isListening"@)),
        bool_text(bool_member(node, "canSleep"@)),
        node_label_text(node),
    )
}

/// The columns of one line of the table, side by side.
fn table_text(
    id: String,
    status: String,
    ready: String,
    listening: String,
    sleep: String,
    label: &str,
) -> (line: String)
    ensures
        line@ == table_line(id@, status@, ready@, listening@, sleep@, label@),
{
    let mut line: String = pad(id, 5);
    line.append(" ");
    line.append(pad(status, 8).as_str());
    line.append(" ");
    line.append(pad(ready, 7).as_str());
    line.append(" ");
    line.append(pad(listening, 9).as_str());
    line.append(" ");
    line.append(pad(sleep, 8).as_str());
    line.append(" ");
    line.append(label);
    line
}

/// The head of the table of nodes.
pub fn table_head() -> (line: String)
    ensures
        line@ == table_head_text(),
{
    table_text(
        "NODE".to_owned(),
        "STATUS".to_owned(),
        "READY".to_owned(),
        "LISTENING".to_owned(),
        "SLEEP".to_owned(),
        "LABEL",
    )
}

/// The line of a node in the table.
pub fn table_row(node: &Json) -> (line: String)
    ensures
        line@ == table_row_text(node@),
{
    table_text(
        decimal_text(node_id(node)),
        node_status(node),
        bool_word(value_bool(node, "ready")).to_owned(),
        bool_word(value_bool(node, "isListening")).to_owned(),
        bool_word(value_bool(node, "canSleep")).to_owned(),
        node_label(node).as_str(),
    )
}

} // verus!

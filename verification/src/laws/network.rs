//! What holds of what is shown of nodes, of the controller and of inclusion.

use vstd::prelude::*;
use crate::codec::compact_text;
use crate::controller::{controller_line_text, firmware_text, home_id_text, traffic_line_text};
use crate::counts::{ascending, count_of, counts_can_be_set, counts_determine_entries, entry_of};
use crate::events::{event_name, event_node, event_status, event_text};
use crate::json::{u64_member, JsonView};
use crate::laws::{dead_listing_is_exact, lemma_decimal_first};
use crate::laws::values::counts_are_found_under_their_names;
use crate::nodes::{
    counts_bounded, in_trouble, listed, node_label_text, node_status_text, ready_count,
    status_count, status_entries, status_text, table_head_text, table_row_text, tallies, DEAD,
};
use crate::text::{bool_text, decimal, decimal_injective, hexadecimal_eight, padded, text_below};

verus! {

/// Conditions that agree on the items of a list choose the same items.
proof fn lemma_same_choice<A>(list: Seq<A>, p: spec_fn(A) -> bool, q: spec_fn(A) -> bool)
    requires
        forall|i: int| 0 <= i < list.len() ==> p(#[trigger] list[i]) == q(list[i]),
    ensures
        list.filter(p) == list.filter(q),
    decreases list.len(),
{
    reveal(Seq::filter);
    if list.len() > 0 {
        let shorter = list.drop_last();
        assert(p(list[list.len() - 1]) == q(list[list.len() - 1]));
        assert forall|i: int| 0 <= i < shorter.len() implies p(#[trigger] shorter[i]) == q(
            shorter[i],
        ) by {
            assert(p(list[i]) == q(list[i]));
        }
        lemma_same_choice(shorter, p, q);
    }
}

/// A condition that holds of every item chooses them all.
proof fn lemma_all_chosen<A>(list: Seq<A>, p: spec_fn(A) -> bool)
    requires
        forall|i: int| 0 <= i < list.len() ==> p(#[trigger] list[i]),
    ensures
        list.filter(p) == list,
    decreases list.len(),
{
    reveal(Seq::filter);
    if list.len() > 0 {
        let shorter = list.drop_last();
        assert(p(list[list.len() - 1]));
        assert forall|i: int| 0 <= i < shorter.len() implies p(#[trigger] shorter[i]) by {
            assert(p(list[i]));
        }
        lemma_all_chosen(shorter, p);
        assert(list =~= shorter.push(list.last()));
    }
}

/// A node counts as ready if and only if its member `ready` is the truth value `true`, whatever
/// its other members are.
pub proof fn every_ready_node_counts(nodes: Seq<JsonView>)
    ensures
        ready_count(nodes) == nodes.filter(
            |node: JsonView| node.member("ready"@) == Some(JsonView::Bool(true)),
        ).len(),
    decreases nodes.len(),
{
    reveal(Seq::filter);
    if nodes.len() > 0 {
        every_ready_node_counts(nodes.drop_last());
    }
}

/// Where every node is ready all of them are counted.
pub proof fn ready_networks_count_every_node(nodes: Seq<JsonView>)
    requires
        forall|i: int|
            0 <= i < nodes.len() ==> (#[trigger] nodes[i]).member("ready"@) == Some(
                JsonView::Bool(true),
            ),
    ensures
        ready_count(nodes) == nodes.len(),
{
    every_ready_node_counts(nodes);
    lemma_all_chosen(
        nodes,
        |node: JsonView| node.member("ready"@) == Some(JsonView::Bool(true)),
    );
}

/// The names of statuses are different.
proof fn lemma_status_names()
    ensures
        "unknown"@ != "asleep"@,
        "unknown"@ != "awake"@,
        "unknown"@ != "dead"@,
        "unknown"@ != "alive"@,
        "asleep"@ != "awake"@,
        "asleep"@ != "dead"@,
        "asleep"@ != "alive"@,
        "awake"@ != "dead"@,
        "awake"@ != "alive"@,
        "dead"@ != "alive"@,
{
    reveal_strlit("unknown");
    reveal_strlit("asleep");
    reveal_strlit("awake");
    reveal_strlit("dead");
    reveal_strlit("alive");
    assert("unknown"@.len() == 7);
    assert("asleep"@.len() == 6);
    assert("awake"@[1] == 'w');
    assert("alive"@[1] == 'l');
    assert("awake"@.len() == 5 && "alive"@.len() == 5 && "dead"@.len() == 4);
}

/// No number is written like the name of a status.
proof fn lemma_numbers_are_no_names(n: nat)
    ensures
        decimal(n) != "unknown"@,
        decimal(n) != "asleep"@,
        decimal(n) != "awake"@,
        decimal(n) != "dead"@,
        decimal(n) != "alive"@,
{
    reveal_strlit("unknown");
    reveal_strlit("asleep");
    reveal_strlit("awake");
    reveal_strlit("dead");
    reveal_strlit("alive");
    lemma_decimal_first(n);
    assert("unknown"@[0] == 'u' && "asleep"@[0] == 'a' && "awake"@[0] == 'a');
    assert("dead"@[0] == 'd' && "alive"@[0] == 'a');
}

/// The statuses that have names have these, any other status is told by its number, and what is no
/// number is unknown.
pub proof fn statuses_have_their_names(status: JsonView, n: u64)
    ensures
        status_text(JsonView::Unsigned(1)) == "asleep"@,
        status_text(JsonView::Unsigned(2)) == "awake"@,
        status_text(JsonView::Unsigned(3)) == "dead"@,
        status_text(JsonView::Unsigned(4)) == "alive"@,
        n > 4 ==> status_text(JsonView::Unsigned(n)) == decimal(n as nat),
        status_text(JsonView::Unsigned(0)) == "unknown"@,
        !(status is Unsigned) ==> status_text(status) == "unknown"@,
        DEAD == 3,
{
}

/// A node has the status that its member names, and is of unknown status without such a member.
pub proof fn nodes_have_the_status_they_report(node: JsonView, status: JsonView)
    ensures
        node.member("status"@) == Some(status) ==> node_status_text(node) == status_text(status),
        node.member("status"@) is None ==> node_status_text(node) == "unknown"@,
{
}

/// Nodes are counted under a name if and only if that is the name of their status.
proof fn lemma_counted_by_name(nodes: Seq<JsonView>, name: Seq<char>)
    ensures
        status_count(nodes, name) == nodes.filter(
            |node: JsonView| node_status_text(node) == name,
        ).len(),
    decreases nodes.len(),
{
    reveal(Seq::filter);
    if nodes.len() > 0 {
        lemma_counted_by_name(nodes.drop_last(), name);
    }
}

/// Under the name of a status stand as many as there are nodes whose member `status` is the number
/// of that status. Every other node is of unknown status.
pub proof fn statuses_are_counted_by_number(nodes: Seq<JsonView>, n: u64)
    ensures
        status_count(nodes, "asleep"@) == nodes.filter(
            |node: JsonView| node.member("status"@) == Some(JsonView::Unsigned(1)),
        ).len(),
        status_count(nodes, "awake"@) == nodes.filter(
            |node: JsonView| node.member("status"@) == Some(JsonView::Unsigned(2)),
        ).len(),
        status_count(nodes, "dead"@) == nodes.filter(
            |node: JsonView| node.member("status"@) == Some(JsonView::Unsigned(3)),
        ).len(),
        status_count(nodes, "alive"@) == nodes.filter(
            |node: JsonView| node.member("status"@) == Some(JsonView::Unsigned(4)),
        ).len(),
        n > 4 ==> status_count(nodes, decimal(n as nat)) == nodes.filter(
            |node: JsonView| node.member("status"@) == Some(JsonView::Unsigned(n)),
        ).len(),
        status_count(nodes, "unknown"@) == nodes.filter(
            |node: JsonView|
                !(node.member("status"@) matches Some(JsonView::Unsigned(status)) && status > 0),
        ).len(),
{
    lemma_status_names();
    assert forall|m: nat|
        #![trigger decimal(m)]
        decimal(m) != "unknown"@ && decimal(m) != "asleep"@ && decimal(m) != "awake"@ && decimal(m)
            != "dead"@ && decimal(m) != "alive"@ && (decimal(m) == decimal(n as nat)
            ==> m == n) by {
        lemma_numbers_are_no_names(m);
        if decimal(m) == decimal(n as nat) {
            decimal_injective(m, n as nat);
        }
    }
    lemma_counted_by_name(nodes, "asleep"@);
    lemma_counted_by_name(nodes, "awake"@);
    lemma_counted_by_name(nodes, "dead"@);
    lemma_counted_by_name(nodes, "alive"@);
    lemma_counted_by_name(nodes, decimal(n as nat));
    lemma_counted_by_name(nodes, "unknown"@);
    lemma_same_choice(
        nodes,
        |node: JsonView| node_status_text(node) == "asleep"@,
        |node: JsonView| node.member("status"@) == Some(JsonView::Unsigned(1)),
    );
    lemma_same_choice(
        nodes,
        |node: JsonView| node_status_text(node) == "awake"@,
        |node: JsonView| node.member("status"@) == Some(JsonView::Unsigned(2)),
    );
    lemma_same_choice(
        nodes,
        |node: JsonView| node_status_text(node) == "dead"@,
        |node: JsonView| node.member("status"@) == Some(JsonView::Unsigned(3)),
    );
    lemma_same_choice(
        nodes,
        |node: JsonView| node_status_text(node) == "alive"@,
        |node: JsonView| node.member("status"@) == Some(JsonView::Unsigned(4)),
    );
    if n > 4 {
        lemma_same_choice(
            nodes,
            |node: JsonView| node_status_text(node) == decimal(n as nat),
            |node: JsonView| node.member("status"@) == Some(JsonView::Unsigned(n)),
        );
    }
    lemma_same_choice(
        nodes,
        |node: JsonView| node_status_text(node) == "unknown"@,
        |node: JsonView|
            !(node.member("status"@) matches Some(JsonView::Unsigned(status)) && status > 0),
    );
}

/// The nodes of every network can be tallied.
proof fn lemma_tally(nodes: Seq<JsonView>) -> (entries: Seq<(Seq<char>, usize)>)
    requires
        nodes.len() <= usize::MAX,
    ensures
        tallies(entries, nodes),
    decreases nodes.len(),
{
    if nodes.len() == 0 {
        Seq::empty()
    } else {
        let shorter = nodes.drop_last();
        let name = node_status_text(nodes.last());
        let before = lemma_tally(shorter);
        counts_bounded(shorter, name);
        assert(count_of(before, name) == status_count(shorter, name));
        let after = counts_can_be_set(before, name, (count_of(before, name) + 1) as usize);
        assert forall|other: Seq<char>| #[trigger] count_of(after, other) == status_count(
            nodes,
            other,
        ) by {
            assert(count_of(before, other) == status_count(shorter, other));
            if other != name {
                assert(entry_of(after, other) == entry_of(before, other));
            }
        }
        after
    }
}

/// The counts of a network name each status that some node has, once and in order, with the number
/// of nodes that have it, and no other status.
pub proof fn each_status_is_counted_once(
    nodes: Seq<JsonView>,
    entry: (Seq<char>, usize),
    i: int,
    j: int,
)
    requires
        nodes.len() <= usize::MAX,
    ensures
        0 <= i < j < status_entries(nodes).len() ==> text_below(
            status_entries(nodes)[i].0,
            status_entries(nodes)[j].0,
        ),
        status_entries(nodes).contains(entry) <==> entry.1 > 0 && entry.1 == nodes.filter(
            |node: JsonView| node_status_text(node) == entry.0,
        ).len(),
{
    let witness = lemma_tally(nodes);
    assert(tallies(witness, nodes));
    let entries = status_entries(nodes);
    assert(tallies(entries, nodes));
    assert(ascending(entries));
    lemma_counted_by_name(nodes, entry.0);
    counts_are_found_under_their_names(entries, entry.0, entry.1);
    assert(count_of(entries, entry.0) == status_count(nodes, entry.0));
    if entries.contains(entry) {
        let k = choose|k: int| 0 <= k < entries.len() && entries[k] == entry;
        assert(entries[k].1 > 0);
    }
}

/// There is one way to count a network: whatever tallies its nodes is what is shown.
pub proof fn tallies_are_unique(nodes: Seq<JsonView>, entries: Seq<(Seq<char>, usize)>)
    requires
        tallies(entries, nodes),
    ensures
        entries == status_entries(nodes),
{
    assert(tallies(status_entries(nodes), nodes));
    assert forall|name: Seq<char>| #[trigger] count_of(entries, name) == count_of(
        status_entries(nodes),
        name,
    ) by {
        assert(count_of(entries, name) == status_count(nodes, name));
        assert(count_of(status_entries(nodes), name) == status_count(nodes, name));
    }
    counts_determine_entries(entries, status_entries(nodes));
}

/// A listing of dead nodes drops a node if and only if the node is ready and its status is not
/// dead. It keeps the others in their order. A listing of all nodes drops none.
pub proof fn only_dead_and_unready_nodes_are_listed(nodes: Seq<JsonView>)
    ensures
        listed(nodes, true) == nodes.filter(
            |node: JsonView|
                node.member("ready"@) != Some(JsonView::Bool(true)) || node.member("status"@)
                    == Some(JsonView::Unsigned(3)),
        ),
        listed(nodes, false) == nodes,
{
    lemma_same_choice(
        nodes,
        |node: JsonView| in_trouble(node),
        |node: JsonView|
            node.member("ready"@) != Some(JsonView::Bool(true)) || node.member("status"@) == Some(
                JsonView::Unsigned(3),
            ),
    );
}

/// A ready node with a status is among the dead if and only if that status is dead, and a node
/// that is not ready always is.
pub proof fn ready_nodes_are_listed_only_if_dead(
    nodes: Seq<JsonView>,
    node: JsonView,
    status: u64,
)
    requires
        nodes.contains(node),
    ensures
        node.member("ready"@) == Some(JsonView::Bool(true)) && node.member("status"@) == Some(
            JsonView::Unsigned(status),
        ) ==> (listed(nodes, true).contains(node) <==> status == 3),
        node.member("ready"@) == Some(JsonView::Bool(true)) && !(node.member(
            "status"@,
        ) matches Some(JsonView::Unsigned(_))) ==> !listed(nodes, true).contains(node),
        node.member("ready"@) != Some(JsonView::Bool(true)) ==> listed(nodes, true).contains(node),
{
    dead_listing_is_exact(nodes, node);
}

/// A node goes by its name, by manufacturer and device, or by both.
pub proof fn labels_tell_name_and_device(node: JsonView)
    ensures
        match (
            node.member("name"@),
            node.member_of_member("deviceConfig"@, "manufacturer"@),
            node.member_of_member("deviceConfig"@, "label"@),
        ) {
            (
                Some(JsonView::Text(name)),
                Some(JsonView::Text(manufacturer)),
                Some(JsonView::Text(label)),
            ) => node_label_text(node) == name + " ("@ + manufacturer + " "@ + label + ")"@,
            (Some(JsonView::Text(name)), _, _) => node_label_text(node) == name,
            (_, Some(JsonView::Text(manufacturer)), Some(JsonView::Text(label))) => node_label_text(
                node,
            ) == manufacturer + " "@ + label,
            (_, _, Some(JsonView::Text(label))) => node_label_text(node) == label,
            _ => node_label_text(node) == "-"@,
        },
{
}

/// The table has these columns, and under each stands what the node reports of it.
pub proof fn rows_stand_under_the_head(node: JsonView, id: u64)
    requires
        node.member("nodeId"@) == Some(JsonView::Unsigned(id)) || (id == 0 && !(node.member(
            "nodeId"@,
        ) matches Some(JsonView::Unsigned(_)))),
    ensures
        table_head_text() == padded("NODE"@, 5) + " "@ + padded("STATUS"@, 8) + " "@ + padded(
            "READY"@,
            7,
        ) + " "@ + padded("LISTENING"@, 9) + " "@ + padded("SLEEP"@, 8) + " "@ + "LABEL"@,
        table_row_text(node) == padded(decimal(id as nat), 5) + " "@ + padded(
            node_status_text(node),
            8,
        ) + " "@ + padded(
            bool_text(node.member("ready"@) == Some(JsonView::Bool(true))),
            7,
        ) + " "@ + padded(
            bool_text(node.member("isListening"@) == Some(JsonView::Bool(true))),
            9,
        ) + " "@ + padded(
            bool_text(node.member("canSleep"@) == Some(JsonView::Bool(true))),
            8,
        ) + " "@ + node_label_text(node),
{
}

/// The firmware version and the home id are those that the controller reports, and unknown where
/// it reports none.
pub proof fn controllers_are_known_by_what_they_report(
    controller: JsonView,
    version: Seq<char>,
    id: u64,
)
    ensures
        controller.member("firmwareVersion"@) == Some(JsonView::Text(version)) ==> firmware_text(
            controller,
        ) == version,
        !(controller.member("firmwareVersion"@) matches Some(JsonView::Text(_))) ==> firmware_text(
            controller,
        ) == "unknown"@,
        controller.member("homeId"@) == Some(JsonView::Unsigned(id)) ==> home_id_text(controller)
            == hexadecimal_eight(id as nat),
        !(controller.member("homeId"@) matches Some(JsonView::Unsigned(_))) ==> home_id_text(
            controller,
        ) == "unknown"@,
{
}

/// The line on the controller tells who it is, the numbers of nodes and of ready nodes, and
/// whether it rebuilds routes.
pub proof fn the_controller_line_tells(controller: JsonView, nodes: nat, ready: nat)
    ensures
        controller_line_text(controller, nodes, ready) == "Controller "@ + firmware_text(controller)
            + " home="@ + home_id_text(controller) + " nodes="@ + decimal(nodes) + " ready="@
            + decimal(ready) + " rebuilding="@ + if controller.member("isRebuildingRoutes"@)
            == Some(JsonView::Bool(true)) {
            "true"@
        } else {
            "false"@
        },
{
}

/// The numbers of messages that the controller reports are told each under its own heading.
pub proof fn the_traffic_line_tells(statistics: JsonView)
    ensures
        traffic_line_text(statistics) == "TX="@ + decimal(
            u64_member(statistics, "messagesTX"@) as nat,
        ) + " RX="@ + decimal(u64_member(statistics, "messagesRX"@) as nat) + " dropped_tx="@
            + decimal(u64_member(statistics, "messagesDroppedTX"@) as nat) + " dropped_rx="@
            + decimal(u64_member(statistics, "messagesDroppedRX"@) as nat) + " timeouts="@
            + decimal(u64_member(statistics, "timeoutResponse"@) as nat),
{
}

/// An event is called by its member `event` whatever else it has, by `type` only where there is no
/// `event`, and a message where the one that counts is no text.
pub proof fn events_are_called_by_event_before_type(value: JsonView, name: Seq<char>)
    ensures
        value.member("event"@) == Some(JsonView::Text(name)) ==> event_name(value) == name,
        value.member("event"@) is None && value.member("type"@) == Some(JsonView::Text(name))
            ==> event_name(value) == name,
        value.member("event"@) is Some && !(value.member("event"@) matches Some(JsonView::Text(_)))
            ==> event_name(value) == "message"@,
        value.member("event"@) is None && !(value.member("type"@) matches Some(JsonView::Text(_)))
            ==> event_name(value) == "message"@,
{
}

/// An event is about the node inside it whatever else it has, about the node of its own number
/// only where there is none inside, and about no node where the one that counts is no number.
pub proof fn events_are_about_the_inner_node_first(value: JsonView, id: u64)
    ensures
        event_node(value) == Some(id) <==> {
            ||| value.member_of_member("node"@, "nodeId"@) == Some(JsonView::Unsigned(id))
            ||| value.member_of_member("node"@, "nodeId"@) is None && value.member("nodeId"@)
                == Some(JsonView::Unsigned(id))
        },
{
}

/// An event went as its member `status` says whatever else it has, and as `result` says only where
/// there is no `status`.
pub proof fn events_went_as_status_says_before_result(value: JsonView, status: Seq<char>)
    ensures
        event_status(value) == Some(status) <==> {
            ||| value.member("status"@) == Some(JsonView::Text(status))
            ||| value.member("status"@) is None && value.member("result"@) == Some(
                JsonView::Text(status),
            )
        },
{
}

/// An event tells its node and how it went where they are known, and is shown whole otherwise.
pub proof fn events_tell_node_and_status(value: JsonView)
    ensures
        event_text(value) == event_name(value) + match (event_node(value), event_status(value)) {
            (Some(id), Some(status)) => ": node="@ + decimal(id as nat) + " status="@ + status,
            (Some(id), None) => ": node="@ + decimal(id as nat),
            (None, Some(status)) => ": status="@ + status,
            (None, None) => ": "@ + compact_text(value),
        },
{
    assert(event_text(value) =~= event_name(value) + match (
        event_node(value),
        event_status(value),
    ) {
        (Some(id), Some(status)) => ": node="@ + decimal(id as nat) + " status="@ + status,
        (Some(id), None) => ": node="@ + decimal(id as nat),
        (None, Some(status)) => ": status="@ + status,
        (None, None) => ": "@ + compact_text(value),
    });
}

} // verus!

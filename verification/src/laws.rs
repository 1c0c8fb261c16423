//! What holds of the client as a whole.

pub mod conversations;
pub mod messages;
pub mod network;
pub mod values;

use vstd::prelude::*;
use crate::codec::{compact_text, pretty_text, text_document};
use crate::events::{event_name, event_text};
use crate::json::{text_of, JsonView};
use crate::nodes::{in_trouble, listed, node_label_text, status_text, table_line};
use crate::protocol::{
    answers, checked_payload, empty_payload_value, message_id, node_payload_value, refusal,
    request_members, says_failed, schema_request_value, schema_version, succeeded,
};
use crate::run::{
    actions_of, advanced, after, begun, reachable, reported_nodes, ActionView, CommandsView,
    EventView, PhaseView, Purpose, RunView,
};
use crate::text::{
    decimal, decimal_injective, hexadecimal, hexadecimal_eight, hexadecimal_injective, padded,
};

verus! {

/// Whether the event is the controller's word that the node is failed, in answer to the first
/// request.
pub open spec fn confirms(event: EventView) -> bool {
    event matches EventView::Message(message) && answers(message, message_id(1)) && succeeded(
        message,
    ) && says_failed(message)
}

/// Whether the event is the server's consent to the schema request.
pub open spec fn consents(event: EventView) -> bool {
    event matches EventView::Message(message) && answers(message, "schema"@) && succeeded(message)
}

/// Whether the event is a greeting that names a schema version.
pub open spec fn greets(event: EventView) -> bool {
    event matches EventView::Message(message) && schema_version(message) is Some
}

/// The commands that a task may ask of the server.
pub open spec fn may_ask(task: CommandsView, command: Seq<char>) -> bool {
    match task {
        CommandsView::Status => command == "start_listening"@,
        CommandsView::Nodes { .. } => command == "start_listening"@,
        CommandsView::Dead => command == "start_listening"@,
        CommandsView::Ping { .. } => command == "node.ping"@,
        CommandsView::IsFailed { .. } => command == "controller.is_failed_node"@,
        CommandsView::RemoveFailed { .. } => command == "controller.is_failed_node"@ || command
            == "controller.remove_failed_node"@,
        CommandsView::RebuildRoutes => command == "controller.begin_rebuilding_routes"@,
        CommandsView::Include { .. } => command == "controller.begin_inclusion"@ || command
            == "controller.stop_inclusion"@,
        CommandsView::Call { command: called, .. } => command == called,
    }
}

/// Whether what an answer is wanted for fits the task.
pub open spec fn fits(task: CommandsView, purpose: Purpose) -> bool {
    match purpose {
        Purpose::Report => task is Status,
        Purpose::Listing { dead_only } => match task {
            CommandsView::Nodes { dead } => dead == dead_only,
            CommandsView::Dead => dead_only,
            _ => false,
        },
        Purpose::Show => task is Ping || task is IsFailed || task is RemoveFailed
            || task is RebuildRoutes || task is Call,
        Purpose::Confirm { node_id } => task == CommandsView::RemoveFailed { node_id },
        Purpose::Start { timeout } => task == CommandsView::Include { timeout },
        Purpose::Stop => task is Include,
    }
}

/// What holds in every state of a run: it asks the server only what its task may ask, for what the
/// task wants to know.
pub open spec fn in_bounds(run: RunView) -> bool {
    match run.phase {
        PhaseView::Waiting { purpose, command, id } => {
            &&& may_ask(run.task, command)
            &&& fits(run.task, purpose)
            &&& purpose is Confirm ==> command == "controller.is_failed_node"@ && id
                == message_id(1)
        },
        PhaseView::Listening => run.task is Include,
        _ => true,
    }
}

/// No event leads out of the states that a run can be in.
proof fn lemma_step_in_bounds(run: RunView, event: EventView)
    requires
        reachable(run),
        in_bounds(run),
    ensures
        reachable(advanced(run, event).run),
        in_bounds(advanced(run, event).run),
        advanced(run, event).run.task == run.task,
        advanced(run, event).run.raw_json == run.raw_json,
{
}

/// In the course of any events a run keeps its task, numbers no more than two requests, and asks
/// the server only what its task may ask.
pub proof fn tasks_keep_to_their_commands(
    raw_json: bool,
    task: CommandsView,
    events: Seq<EventView>,
)
    ensures
        reachable(after(begun(raw_json, task), events)),
        in_bounds(after(begun(raw_json, task), events)),
        after(begun(raw_json, task), events).task == task,
        after(begun(raw_json, task), events).raw_json == raw_json,
    decreases events.len(),
{
    if events.len() > 0 {
        tasks_keep_to_their_commands(raw_json, task, events.drop_last());
        lemma_step_in_bounds(after(begun(raw_json, task), events.drop_last()), events.last());
    }
}

/// Whether a run has asked for the removal of a node and waits for the answer.
pub open spec fn awaits_removal(run: RunView) -> bool {
    run.phase matches PhaseView::Waiting { command, .. } && command
        == "controller.remove_failed_node"@
}

/// A run that is to remove a failed node asks for the removal only at the moment when the
/// controller confirms that the node is failed, and then it names that node.
pub proof fn removal_follows_confirmation(
    raw_json: bool,
    node_id: u32,
    events: Seq<EventView>,
    event: EventView,
)
    requires
        !awaits_removal(after(begun(raw_json, CommandsView::RemoveFailed { node_id }), events)),
        awaits_removal(
            advanced(
                after(begun(raw_json, CommandsView::RemoveFailed { node_id }), events),
                event,
            ).run,
        ),
    ensures
        confirms(event),
        advanced(
            after(begun(raw_json, CommandsView::RemoveFailed { node_id }), events),
            event,
        ).actions == seq![
            ActionView::Send(
                compact_text(
                    JsonView::Object(
                        request_members(
                            node_payload_value(node_id)->Object_0,
                            "controller.remove_failed_node"@,
                            message_id(2),
                        ),
                    ),
                ),
            ),
            ActionView::Receive,
        ],
{
    tasks_keep_to_their_commands(raw_json, CommandsView::RemoveFailed { node_id }, events);
    lemma_commands_differ();
}

/// The names of commands that the runs tell apart are different.
proof fn lemma_commands_differ()
    ensures
        "controller.is_failed_node"@ != "controller.remove_failed_node"@,
{
    reveal_strlit("controller.is_failed_node");
    reveal_strlit("controller.remove_failed_node");
    assert("controller.is_failed_node"@.len() != "controller.remove_failed_node"@.len());
}

/// A run that is to remove a failed node never asks for the removal unless the controller has
/// confirmed that the node is failed.
pub proof fn no_removal_without_confirmation(
    raw_json: bool,
    node_id: u32,
    events: Seq<EventView>,
)
    requires
        awaits_removal(after(begun(raw_json, CommandsView::RemoveFailed { node_id }), events)),
    ensures
        exists|i: int| 0 <= i < events.len() && confirms(#[trigger] events[i]),
    decreases events.len(),
{
    let run = begun(raw_json, CommandsView::RemoveFailed { node_id });
    if events.len() > 0 {
        let earlier = events.drop_last();
        if awaits_removal(after(run, earlier)) {
            no_removal_without_confirmation(raw_json, node_id, earlier);
            let i = choose|i: int| 0 <= i < earlier.len() && confirms(#[trigger] earlier[i]);
            assert(confirms(events[i]));
        } else {
            removal_follows_confirmation(raw_json, node_id, earlier, events.last());
            assert(confirms(events[events.len() - 1]));
        }
    }
}

/// A run makes no request before the server has named a schema version and then consented to it.
pub proof fn schema_is_agreed_first(raw_json: bool, task: CommandsView, events: Seq<EventView>)
    ensures
        after(begun(raw_json, task), events).phase is Schema ==> exists|i: int|
            0 <= i < events.len() && greets(#[trigger] events[i]),
        after(begun(raw_json, task), events).next_id > 1 ==> exists|i: int, j: int|
            0 <= i < j < events.len() && greets(#[trigger] events[i]) && consents(
                #[trigger] events[j],
            ),
    decreases events.len(),
{
    let run = begun(raw_json, task);
    tasks_keep_to_their_commands(raw_json, task, events);
    if events.len() > 0 {
        let earlier = events.drop_last();
        let last = events.len() - 1;
        schema_is_agreed_first(raw_json, task, earlier);
        tasks_keep_to_their_commands(raw_json, task, earlier);
        let before = after(run, earlier);
        if before.next_id > 1 {
            let (i, j) = choose|i: int, j: int|
                0 <= i < j < earlier.len() && greets(#[trigger] earlier[i]) && consents(
                    #[trigger] earlier[j],
                );
            assert(greets(events[i]) && consents(events[j]));
        } else if before.phase is Schema {
            let i = choose|i: int| 0 <= i < earlier.len() && greets(#[trigger] earlier[i]);
            assert(greets(events[i]));
            if after(run, events).next_id > 1 {
                assert(consents(events[last]));
            }
        } else if after(run, events).phase is Schema {
            assert(greets(events[last]));
        }
    }
}

/// A request that takes a number is waited for under the id with that number.
pub proof fn requests_are_numbered(run: RunView, event: EventView)
    requires
        reachable(run),
        advanced(run, event).run.next_id != run.next_id,
    ensures
        advanced(run, event).run.next_id == run.next_id + 1,
        advanced(run, event).run.phase matches PhaseView::Waiting { id, .. } && id == message_id(
            run.next_id as nat,
        ),
{
}

/// No two requests have the same id, and none has the id of the schema request.
pub proof fn request_ids_differ(a: nat, b: nat)
    ensures
        message_id(a) == message_id(b) ==> a == b,
        message_id(a) != "schema"@,
{
    reveal_strlit("m");
    reveal_strlit("schema");
    if message_id(a) == message_id(b) {
        assert(message_id(a).skip(1) =~= decimal(a));
        assert(message_id(b).skip(1) =~= decimal(b));
        decimal_injective(a, b);
    }
    assert(message_id(a)[0] == 'm');
    assert("schema"@[0] == 's');
}

/// A message that is not the answer awaited changes nothing.
pub proof fn other_messages_are_ignored(run: RunView, message: JsonView)
    requires
        match run.phase {
            PhaseView::Schema => !answers(message, "schema"@),
            PhaseView::Waiting { id, .. } => !answers(message, id),
            _ => false,
        },
    ensures
        advanced(run, EventView::Message(message)).run == run,
        advanced(run, EventView::Message(message)).actions == seq![ActionView::Receive],
{
}

/// An answer by which the server refuses what it was asked ends the run with a failure whose cause
/// is in the server's words.
pub proof fn refusals_end_the_run(run: RunView, message: JsonView)
    requires
        !succeeded(message),
        match run.phase {
            PhaseView::Schema => answers(message, "schema"@),
            PhaseView::Waiting { id, .. } => answers(message, id),
            _ => false,
        },
    ensures
        advanced(run, EventView::Message(message)).run.phase is Over,
        advanced(run, EventView::Message(message)).actions.len() == 1,
        advanced(run, EventView::Message(message)).actions[0] matches ActionView::Fail(messages)
            && messages.len() > 0 && messages.last() == refusal(message),
{
}

/// A run that is over says to do nothing more.
pub proof fn over_is_final(run: RunView, events: Seq<EventView>)
    requires
        run.phase is Over,
    ensures
        after(run, events) == run,
        actions_of(run, events) == Seq::<ActionView>::empty(),
    decreases events.len(),
{
    if events.len() > 0 {
        over_is_final(run, events.drop_last());
    }
}

/// The last thing to do tells how the run goes on: it ends the run if and only if the run is over,
/// and otherwise it waits.
pub proof fn last_action_decides(run: RunView, event: EventView)
    requires
        !(run.phase is Over),
    ensures
        advanced(run, event).actions.len() > 0,
        advanced(run, event).run.phase is Over <==> {
            ||| advanced(run, event).actions.last() is Finish
            ||| advanced(run, event).actions.last() is Fail
        },
        !(advanced(run, event).run.phase is Over) ==> {
            ||| advanced(run, event).actions.last() is Receive
            ||| advanced(run, event).actions.last() is Listen
        },
{
}

/// While a run listens, neither a message nor silence ends that, the deadline makes it ask to stop
/// inclusion, and only a failure ends the run.
pub proof fn listening_goes_on(run: RunView, event: EventView)
    requires
        run.phase is Listening,
    ensures
        event is Message || event is Silent <==> advanced(run, event).run.phase is Listening,
        event is Deadline <==> (advanced(run, event).run.phase matches PhaseView::Waiting {
            purpose,
            command,
            ..
        } && purpose is Stop && command == "controller.stop_inclusion"@),
        event is ReadFailed || event is SendFailed <==> advanced(run, event).run.phase is Over,
{
}

/// However long the network is silent and whatever messages come, inclusion is stopped at the
/// deadline, and the run finishes when the server has stopped it.
pub proof fn inclusion_is_stopped_at_the_deadline(
    run: RunView,
    events: Seq<EventView>,
    answer: JsonView,
)
    requires
        reachable(run),
        run.phase is Listening,
        forall|i: int|
            0 <= i < events.len() ==> (#[trigger] events[i] is Message || events[i] is Silent),
        answers(answer, message_id(2)),
        succeeded(answer),
    ensures
        after(run, events) == run,
        advanced(after(run, events), EventView::Deadline).actions == seq![
            ActionView::Send(
                compact_text(
                    JsonView::Object(
                        request_members(
                            empty_payload_value()->Object_0,
                            "controller.stop_inclusion"@,
                            message_id(2),
                        ),
                    ),
                ),
            ),
            ActionView::Receive,
        ],
        advanced(
            advanced(after(run, events), EventView::Deadline).run,
            EventView::Message(answer),
        ).actions.last() is Finish,
    decreases events.len(),
{
    if events.len() > 0 {
        let earlier = events.drop_last();
        assert forall|i: int| 0 <= i < earlier.len() implies (#[trigger] earlier[i] is Message
            || earlier[i] is Silent) by {
            assert(events[i] is Message || events[i] is Silent);
        }
        inclusion_is_stopped_at_the_deadline(run, earlier, answer);
        assert(events[events.len() - 1] is Message || events[events.len() - 1] is Silent);
    }
}

/// A run asked to print raw JSON prints the answer as it came, unless it lists nodes or the answer
/// only decides on the next request.
pub proof fn raw_answers_are_printed_whole(
    run: RunView,
    purpose: Purpose,
    command: Seq<char>,
    id: Seq<char>,
    message: JsonView,
)
    requires
        run.raw_json,
        run.phase == (PhaseView::Waiting { purpose, command, id }),
        answers(message, id),
        succeeded(message),
        !(purpose is Listing),
        !(purpose is Confirm),
    ensures
        advanced(run, EventView::Message(message)).actions.contains(
            ActionView::Print(pretty_text(message)),
        ),
{
    let actions = advanced(run, EventView::Message(message)).actions;
    if purpose is Stop {
        assert(actions[1] == ActionView::Print(pretty_text(message)));
    } else {
        assert(actions[0] == ActionView::Print(pretty_text(message)));
    }
}

/// A run asked to print raw JSON prints the nodes that it lists as they came.
pub proof fn raw_listings_print_the_nodes(
    run: RunView,
    dead_only: bool,
    command: Seq<char>,
    id: Seq<char>,
    message: JsonView,
)
    requires
        run.raw_json,
        run.phase == (PhaseView::Waiting {
            purpose: Purpose::Listing { dead_only },
            command,
            id,
        }),
        answers(message, id),
        succeeded(message),
        reported_nodes(message) is Some,
    ensures
        advanced(run, EventView::Message(message)).actions == seq![
            ActionView::Print(
                pretty_text(JsonView::Array(listed(reported_nodes(message)->0, dead_only))),
            ),
            ActionView::Finish,
        ],
{
}

/// Whatever a run sends comes first among what it says to do, and is the schema request or the
/// request that the run then waits for.
pub proof fn what_is_sent_is_awaited(run: RunView, event: EventView, i: int)
    requires
        0 <= i < advanced(run, event).actions.len(),
        advanced(run, event).actions[i] is Send,
    ensures
        i == 0,
        match advanced(run, event).run.phase {
            PhaseView::Schema => exists|version: u64|
                advanced(run, event).actions[i] == ActionView::Send(
                    compact_text(#[trigger] schema_request_value(version)),
                ),
            PhaseView::Waiting { command, id, .. } => exists|payload: Map<Seq<char>, JsonView>|
                advanced(run, event).actions[i] == ActionView::Send(
                    compact_text(
                        JsonView::Object(#[trigger] request_members(payload, command, id)),
                    ),
                ),
            _ => false,
        },
{
    match run.phase {
        PhaseView::Greeting => {
            if let EventView::Message(message) = event {
                assert(advanced(run, event).actions[0] == ActionView::Send(
                    compact_text(schema_request_value(schema_version(message)->0)),
                ));
            }
        },
        PhaseView::Schema => {
            let payload = match run.task {
                CommandsView::Status => empty_payload_value(),
                CommandsView::Nodes { .. } => empty_payload_value(),
                CommandsView::Dead => empty_payload_value(),
                CommandsView::Ping { node_id } => node_payload_value(node_id),
                CommandsView::IsFailed { node_id } => node_payload_value(node_id),
                CommandsView::RemoveFailed { node_id } => node_payload_value(node_id),
                CommandsView::RebuildRoutes => empty_payload_value(),
                CommandsView::Include { .. } => empty_payload_value(),
                CommandsView::Call { payload, .. } => checked_payload(
                    text_document(payload),
                )->Ok_0,
            };
            if let PhaseView::Waiting { command, id, .. } = advanced(run, event).run.phase {
                assert(advanced(run, event).actions[0] == ActionView::Send(
                    compact_text(
                        JsonView::Object(request_members(payload->Object_0, command, id)),
                    ),
                ));
            }
        },
        PhaseView::Waiting { purpose: Purpose::Confirm { node_id }, .. } => {
            if let PhaseView::Waiting { command, id, .. } = advanced(run, event).run.phase {
                let payload = node_payload_value(node_id);
                assert(advanced(run, event).actions[0] == ActionView::Send(
                    compact_text(
                        JsonView::Object(request_members(payload->Object_0, command, id)),
                    ),
                ));
            }
        },
        PhaseView::Listening => {
            if let PhaseView::Waiting { command, id, .. } = advanced(run, event).run.phase {
                let payload = empty_payload_value();
                assert(advanced(run, event).actions[0] == ActionView::Send(
                    compact_text(
                        JsonView::Object(request_members(payload->Object_0, command, id)),
                    ),
                ));
            }
        },
        _ => {},
    }
}

/// Without the deadline a run that includes nodes neither asks to stop nor finishes.
proof fn lemma_no_stop_before_the_deadline(run: RunView, event: EventView)
    requires
        reachable(run),
        in_bounds(run),
        run.task is Include,
        !awaits_stop(run),
        !(event is Deadline),
    ensures
        !awaits_stop(advanced(run, event).run),
        !advanced(run, event).actions.contains(ActionView::Finish),
{
}

/// Whether a run has asked to stop inclusion and waits for the answer.
pub open spec fn awaits_stop(run: RunView) -> bool {
    run.phase matches PhaseView::Waiting { purpose, .. } && purpose is Stop
}

/// Whether the time for listening was over at some point.
pub open spec fn deadline_among(events: Seq<EventView>) -> bool {
    exists|i: int| 0 <= i < events.len() && #[trigger] events[i] is Deadline
}

/// A run that includes nodes asks to stop, and finishes, only after the time for listening was
/// over.
pub proof fn inclusion_finishes_after_the_deadline(
    raw_json: bool,
    timeout: u64,
    events: Seq<EventView>,
)
    ensures
        awaits_stop(after(begun(raw_json, CommandsView::Include { timeout }), events))
            ==> deadline_among(events),
        actions_of(begun(raw_json, CommandsView::Include { timeout }), events).contains(
            ActionView::Finish,
        ) ==> deadline_among(events),
    decreases events.len(),
{
    let task = CommandsView::Include { timeout };
    let run = begun(raw_json, task);
    if events.len() > 0 {
        let earlier = events.drop_last();
        let before = after(run, earlier);
        inclusion_finishes_after_the_deadline(raw_json, timeout, earlier);
        tasks_keep_to_their_commands(raw_json, task, earlier);
        if deadline_among(earlier) {
            let i = choose|i: int| 0 <= i < earlier.len() && #[trigger] earlier[i] is Deadline;
            assert(events[i] is Deadline);
        } else if events.last() is Deadline {
            assert(events[events.len() - 1] is Deadline);
        } else {
            lemma_no_stop_before_the_deadline(before, events.last());
            let old = actions_of(run, earlier);
            let now = advanced(before, events.last()).actions;
            assert(actions_of(run, events) == old + now);
            assert(!(old + now).contains(ActionView::Finish)) by {
                assert forall|i: int| 0 <= i < (old + now).len() implies (old + now)[i]
                    != ActionView::Finish by {
                    if i < old.len() {
                        assert(old.contains(old[i]));
                    } else {
                        assert(now.contains(now[i - old.len()]));
                    }
                }
            }
        }
    }
}

/// `dead` does what `nodes --dead` does.
pub proof fn dead_is_nodes_dead(raw_json: bool, events: Seq<EventView>)
    ensures
        actions_of(begun(raw_json, CommandsView::Dead), events) == actions_of(
            begun(raw_json, CommandsView::Nodes { dead: true }),
            events,
        ),
        after(begun(raw_json, CommandsView::Dead), events) == (RunView {
            task: CommandsView::Dead,
            ..after(begun(raw_json, CommandsView::Nodes { dead: true }), events)
        }),
    decreases events.len(),
{
    if events.len() > 0 {
        let earlier = events.drop_last();
        dead_is_nodes_dead(raw_json, earlier);
        tasks_keep_to_their_commands(raw_json, CommandsView::Dead, earlier);
        tasks_keep_to_their_commands(raw_json, CommandsView::Nodes { dead: true }, earlier);
    }
}

/// A listing of dead nodes names exactly those of the nodes that are dead or not ready.
pub proof fn dead_listing_is_exact(nodes: Seq<JsonView>, node: JsonView)
    ensures
        listed(nodes, true).contains(node) <==> nodes.contains(node) && in_trouble(node),
    decreases nodes.len(),
{
    reveal(Seq::filter);
    if nodes.len() > 0 {
        let rest = nodes.drop_last();
        let last = nodes.last();
        dead_listing_is_exact(rest, node);
        assert(nodes =~= rest.push(last));
        assert(nodes.contains(node) <==> rest.contains(node) || node == last) by {
            if rest.contains(node) {
                let i = choose|i: int| 0 <= i < rest.len() && rest[i] == node;
                assert(nodes[i] == node);
            }
            if node == last {
                assert(nodes[nodes.len() - 1] == node);
            }
            if nodes.contains(node) && node != last {
                let i = choose|i: int| 0 <= i < nodes.len() && nodes[i] == node;
                assert(rest[i] == node);
            }
        }
        let shorter = listed(rest, true);
        if in_trouble(last) {
            let longer = shorter.push(last);
            assert(listed(nodes, true) == longer);
            assert(longer.contains(node) <==> shorter.contains(node) || node == last) by {
                if shorter.contains(node) {
                    let i = choose|i: int| 0 <= i < shorter.len() && shorter[i] == node;
                    assert(longer[i] == node);
                }
                if node == last {
                    assert(longer[longer.len() - 1] == node);
                }
            }
        } else {
            assert(listed(nodes, true) == shorter);
        }
    }
}

/// A request has the members of its payload, but for the command and the id.
pub proof fn requests_keep_the_payload(
    payload: Map<Seq<char>, JsonView>,
    command: Seq<char>,
    id: Seq<char>,
    name: Seq<char>,
)
    ensures
        request_members(payload, command, id).contains_pair(
            "command"@,
            JsonView::Text(command),
        ),
        request_members(payload, command, id).contains_pair("messageId"@, JsonView::Text(id)),
        name != "command"@ && name != "messageId"@ ==> {
            &&& request_members(payload, command, id).contains_key(name) == payload.contains_key(
                name,
            )
            &&& payload.contains_key(name) ==> request_members(payload, command, id)[name]
                == payload[name]
        },
{
    reveal_strlit("command");
    reveal_strlit("messageId");
    assert("command"@.len() != "messageId"@.len());
}

/// What is accepted as the payload of a call is a JSON object.
pub proof fn call_payloads_are_objects(document: Result<JsonView, Seq<char>>)
    ensures
        checked_payload(document) matches Ok(payload) ==> payload is Object && document == Ok::<
            JsonView,
            Seq<char>,
        >(payload),
        document is Err ==> checked_payload(document) is Err,
{
}

/// The first digit of a decimal number is one of the ten.
pub(crate) proof fn lemma_decimal_first(n: nat)
    ensures
        decimal(n).len() > 0,
        '0' <= decimal(n)[0] <= '9',
    decreases n,
{
    reveal_strlit("0123456789abcdef");
    if n >= 10 {
        lemma_decimal_first(n / 10);
    }
}

/// Statuses with different numbers have different names.
pub proof fn status_names_differ(a: u64, b: u64)
    requires
        status_text(JsonView::Unsigned(a)) == status_text(JsonView::Unsigned(b)),
    ensures
        a == b,
{
    reveal_strlit("unknown");
    reveal_strlit("asleep");
    reveal_strlit("awake");
    reveal_strlit("dead");
    reveal_strlit("alive");
    lemma_decimal_first(a as nat);
    lemma_decimal_first(b as nat);
    assert("unknown"@[0] == 'u');
    assert("asleep"@[0] == 'a' && "asleep"@[1] == 's');
    assert("awake"@[0] == 'a' && "awake"@[1] == 'w');
    assert("dead"@[0] == 'd');
    assert("alive"@[0] == 'a' && "alive"@[1] == 'l');
    if a > 4 && b > 4 {
        decimal_injective(a as nat, b as nat);
    }
}

/// A hexadecimal number other than zero does not begin with zero.
proof fn lemma_hexadecimal_first(n: nat)
    ensures
        hexadecimal(n).len() > 0,
        n > 0 ==> hexadecimal(n)[0] != '0',
        n == 0 ==> hexadecimal(n).len() == 1,
    decreases n,
{
    reveal_strlit("0123456789abcdef");
    if n >= 16 {
        lemma_hexadecimal_first(n / 16);
    }
}

/// A home id has at least eight digits, and eight digits if it has 32 bits.
pub proof fn home_ids_have_eight_digits(id: nat)
    ensures
        hexadecimal_eight(id).len() >= 8,
        id < 0x1_0000_0000 ==> hexadecimal_eight(id).len() == 8,
{
    reveal_with_fuel(hexadecimal, 9);
}

/// Different home ids are shown differently.
pub proof fn home_ids_differ(a: nat, b: nat)
    requires
        hexadecimal_eight(a) == hexadecimal_eight(b),
    ensures
        a == b,
{
    let m = hexadecimal(a).len();
    let n = hexadecimal(b).len();
    lemma_hexadecimal_first(a);
    lemma_hexadecimal_first(b);
    if m == n {
        let k = hexadecimal_eight(a).len() - m;
        assert(hexadecimal_eight(a).skip(k) =~= hexadecimal(a));
        assert(hexadecimal_eight(b).skip(k) =~= hexadecimal(b));
        hexadecimal_injective(a, b);
    } else if m < n && n <= 8 {
        assert(hexadecimal_eight(a)[8 - n] == '0');
        assert(hexadecimal_eight(b)[8 - n] == hexadecimal(b)[0]);
    } else if n < m && m <= 8 {
        assert(hexadecimal_eight(b)[8 - m] == '0');
        assert(hexadecimal_eight(a)[8 - m] == hexadecimal(a)[0]);
    } else {
        assert(hexadecimal_eight(a).len() != hexadecimal_eight(b).len());
    }
}

/// The label of a node that has a name begins with the name.
pub proof fn labels_begin_with_the_name(node: JsonView, name: Seq<char>)
    requires
        text_of(node.member("name"@)) == Some(name),
    ensures
        name.is_prefix_of(node_label_text(node)),
{
}

/// In lines of the table whose fields fit their columns the label begins at the same position.
pub proof fn labels_align(
    id: Seq<char>,
    status: Seq<char>,
    ready: Seq<char>,
    listening: Seq<char>,
    sleep: Seq<char>,
    label: Seq<char>,
)
    requires
        id.len() <= 5,
        status.len() <= 8,
        ready.len() <= 7,
        listening.len() <= 9,
        sleep.len() <= 8,
    ensures
        table_line(id, status, ready, listening, sleep, label).len() == 42 + label.len(),
        table_line(id, status, ready, listening, sleep, label).skip(42) == label,
{
    reveal_strlit(" ");
    assert(" "@.len() == 1);
    assert(padded(id, 5).len() == 5);
    assert(padded(status, 8).len() == 8);
    assert(padded(ready, 7).len() == 7);
    assert(padded(listening, 9).len() == 9);
    assert(padded(sleep, 8).len() == 8);
    assert(table_line(id, status, ready, listening, sleep, label).skip(42) =~= label);
}

/// An event in one line begins with what it is called and a colon.
pub proof fn events_begin_with_their_name(value: JsonView)
    ensures
        (event_name(value) + ": "@).is_prefix_of(event_text(value)),
{
    reveal_strlit(": ");
    reveal_strlit(": node=");
    reveal_strlit(": status=");
    assert(": node="@.take(2) =~= ": "@);
    assert(": status="@.take(2) =~= ": "@);
    let head = event_name(value) + ": "@;
    let text = event_text(value);
    assert forall|i: int| 0 <= i < head.len() implies head[i] == text[i] by {
        let k = i - event_name(value).len();
        if k >= 0 {
            assert(": node="@.take(2)[k] == ": "@[k]);
            assert(": status="@.take(2)[k] == ": "@[k]);
        }
    }
    assert(head =~= text.take(head.len() as int));
}

} // verus!

//! What holds of runs, from the members of the messages to what is done.

use vstd::prelude::*;
use crate::codec::{compact_text, pretty_text, text_document};
use crate::controller::{controller_line_text, traffic_line_text};
use crate::counts::counts_text;
use crate::events::event_text;
use crate::json::JsonView;
use crate::laws::messages::{ids_tell_the_number, lemma_names_differ};
use crate::laws::network::{every_ready_node_counts, only_dead_and_unready_nodes_are_listed};
use crate::laws::{last_action_decides, tasks_keep_to_their_commands};
use crate::nodes::{status_entries, table_head_text, table_row_text};
use crate::protocol::{
    empty_payload_value, node_payload_value, refusal, request_members,
};
use crate::run::{
    actions_of, actions_view, advanced, after, begun, call_begun, report, table, Action, ActionView,
    Commands, CommandsView, Event, EventView, Phase, PhaseView, ProgressView, Purpose, RunView,
};
use crate::text::decimal;

verus! {

/// An action is seen as what it is.
pub proof fn actions_are_seen_as_they_are(action: Action)
    ensures
        match action {
            Action::Send(text) => action@ == ActionView::Send(text@),
            Action::Receive => action@ == ActionView::Receive,
            Action::Clock(seconds) => action@ == ActionView::Clock(seconds),
            Action::Listen => action@ == ActionView::Listen,
            Action::Print(line) => action@ == ActionView::Print(line@),
            Action::Note(line) => action@ == ActionView::Note(line@),
            Action::Fail(failure) => action@ == ActionView::Fail(failure@),
            Action::Finish => action@ == ActionView::Finish,
        },
{
}

/// A list of actions is seen as its actions, in their order.
pub proof fn actions_are_seen_in_order(actions: Seq<Action>, i: int)
    requires
        0 <= i < actions.len(),
    ensures
        actions_view(actions).len() == actions.len(),
        actions_view(actions)[i] == actions[i]@,
{
}

/// An event is seen as what it is.
pub proof fn events_are_seen_as_they_are(event: Event)
    ensures
        match event {
            Event::Message(json) => event@ == EventView::Message(json@),
            Event::Silent(failure) => event@ == EventView::Silent(failure@),
            Event::ReadFailed(failure) => event@ == EventView::ReadFailed(failure@),
            Event::SendFailed(failure) => event@ == EventView::SendFailed(failure@),
            Event::Deadline => event@ == EventView::Deadline,
        },
{
}

/// A task is seen as what it is.
pub proof fn tasks_are_seen_as_they_are(task: Commands)
    ensures
        match task {
            Commands::Status => task@ == CommandsView::Status,
            Commands::Nodes { dead } => task@ == (CommandsView::Nodes { dead }),
            Commands::Dead => task@ == CommandsView::Dead,
            Commands::Ping { node_id } => task@ == (CommandsView::Ping { node_id }),
            Commands::IsFailed { node_id } => task@ == (CommandsView::IsFailed { node_id }),
            Commands::RemoveFailed { node_id } => task@ == (CommandsView::RemoveFailed { node_id }),
            Commands::RebuildRoutes => task@ == CommandsView::RebuildRoutes,
            Commands::Include { timeout } => task@ == (CommandsView::Include { timeout }),
            Commands::Call { command, payload } => task@ == (CommandsView::Call {
                command: command@,
                payload: payload@,
            }),
        },
{
}

/// Where a run stands is seen as it is.
pub proof fn phases_are_seen_as_they_are(phase: Phase)
    ensures
        match phase {
            Phase::Greeting => phase@ == PhaseView::Greeting,
            Phase::Schema => phase@ == PhaseView::Schema,
            Phase::Waiting { purpose, command, id } => phase@ == (PhaseView::Waiting {
                purpose,
                command: command@,
                id: id@,
            }),
            Phase::Listening => phase@ == PhaseView::Listening,
            Phase::Over => phase@ == PhaseView::Over,
        },
{
}

/// A run begins by waiting for the greeting and has made no request.
pub proof fn runs_begin_with_the_greeting(raw_json: bool, task: CommandsView)
    ensures
        begun(raw_json, task) == (RunView {
            raw_json,
            task,
            next_id: 1,
            phase: PhaseView::Greeting,
        }),
{
}

/// A greeting that names a schema version is answered with the request for exactly that version.
/// Any other greeting ends the run.
pub proof fn the_newest_schema_is_requested(run: RunView, greeting: JsonView)
    requires
        run.phase is Greeting,
    ensures
        advanced(run, EventView::Message(greeting)) == match greeting.member("maxSchemaVersion"@) {
            Some(JsonView::Unsigned(version)) => ProgressView {
                run: RunView { phase: PhaseView::Schema, ..run },
                actions: seq![
                    ActionView::Send(
                        compact_text(
                            JsonView::Object(
                                map![
                                    "command"@ => JsonView::Text("set_api_schema"@),
                                    "messageId"@ => JsonView::Text("schema"@),
                                    "schemaVersion"@ => JsonView::Unsigned(version),
                                ],
                            ),
                        ),
                    ),
                    ActionView::Receive,
                ],
            },
            _ => ProgressView {
                run: RunView { phase: PhaseView::Over, ..run },
                actions: seq![
                    ActionView::Fail(
                        seq!["server did not send maxSchemaVersion: "@ + compact_text(greeting)],
                    ),
                ],
            },
        },
{
}

/// A message that does not carry the awaited id changes nothing, whatever else it carries.
pub proof fn only_the_awaited_id_counts(run: RunView, message: JsonView)
    requires
        match run.phase {
            PhaseView::Schema => message.member("messageId"@) != Some(JsonView::Text("schema"@)),
            PhaseView::Waiting { id, .. } => message.member("messageId"@) != Some(
                JsonView::Text(id),
            ),
            _ => false,
        },
    ensures
        advanced(run, EventView::Message(message)) == (ProgressView {
            run,
            actions: seq![ActionView::Receive],
        }),
{
}

/// An awaited answer that does not carry `success` with the truth value `true` ends the run with a
/// failure in the server's words, behind what was being started or stopped.
pub proof fn whatever_is_not_success_ends_the_run(run: RunView, message: JsonView)
    requires
        message.member("success"@) != Some(JsonView::Bool(true)),
        match run.phase {
            PhaseView::Schema => message.member("messageId"@) == Some(JsonView::Text("schema"@)),
            PhaseView::Waiting { id, .. } => message.member("messageId"@) == Some(
                JsonView::Text(id),
            ),
            _ => false,
        },
    ensures
        ({
            let words = match message.member("message"@) {
                Some(JsonView::Text(text)) => text,
                _ => "unknown API error"@,
            };
            advanced(run, EventView::Message(message)) == ProgressView {
                run: RunView { phase: PhaseView::Over, ..run },
                actions: seq![
                    ActionView::Fail(
                        match run.phase {
                            PhaseView::Waiting { purpose: Purpose::Start { .. }, .. } => seq![
                                "start inclusion"@,
                                words,
                            ],
                            PhaseView::Waiting { purpose: Purpose::Stop, .. } => seq![
                                "stop inclusion"@,
                                words,
                            ],
                            _ => seq![words],
                        },
                    ),
                ],
            }
        }),
{
    assert(seq!["start inclusion"@] + seq![refusal(message)] =~= seq![
        "start inclusion"@,
        refusal(message),
    ]);
    assert(seq!["stop inclusion"@] + seq![refusal(message)] =~= seq![
        "stop inclusion"@,
        refusal(message),
    ]);
}

/// What requests hold.
proof fn lemma_requests(node_id: u32, command: Seq<char>, id: Seq<char>)
    ensures
        request_members(empty_payload_value()->Object_0, command, id) == map![
            "command"@ => JsonView::Text(command),
            "messageId"@ => JsonView::Text(id),
        ],
        request_members(node_payload_value(node_id)->Object_0, command, id) == map![
            "command"@ => JsonView::Text(command),
            "messageId"@ => JsonView::Text(id),
            "nodeId"@ => JsonView::Unsigned(node_id as u64),
        ],
{
    lemma_names_differ();
    assert(request_members(empty_payload_value()->Object_0, command, id) =~= map![
        "command"@ => JsonView::Text(command),
        "messageId"@ => JsonView::Text(id),
    ]);
    assert(request_members(node_payload_value(node_id)->Object_0, command, id) =~= map![
        "command"@ => JsonView::Text(command),
        "messageId"@ => JsonView::Text(id),
        "nodeId"@ => JsonView::Unsigned(node_id as u64),
    ]);
}

/// When the server has consented to the schema, each task asks for what it is about: a task about
/// a node names exactly that node, and the answer is awaited under the id of the request.
pub proof fn each_task_asks_for_what_it_is_about(
    raw_json: bool,
    task: CommandsView,
    greeting: JsonView,
    version: u64,
    consent: JsonView,
)
    requires
        greeting.member("maxSchemaVersion"@) == Some(JsonView::Unsigned(version)),
        consent.member("messageId"@) == Some(JsonView::Text("schema"@)),
        consent.member("success"@) == Some(JsonView::Bool(true)),
    ensures
        ({
            let run = after(begun(raw_json, task), seq![EventView::Message(greeting)]);
            let progress = advanced(run, EventView::Message(consent));
            let bare = |command: Seq<char>|
                map![
                    "command"@ => JsonView::Text(command),
                    "messageId"@ => JsonView::Text("m1"@),
                ];
            let about = |command: Seq<char>, node_id: u32|
                map![
                    "command"@ => JsonView::Text(command),
                    "messageId"@ => JsonView::Text("m1"@),
                    "nodeId"@ => JsonView::Unsigned(node_id as u64),
                ];
            let sent = |request: Map<Seq<char>, JsonView>|
                seq![
                    ActionView::Send(compact_text(JsonView::Object(request))),
                    ActionView::Receive,
                ];
            let waiting = |purpose: Purpose, command: Seq<char>|
                RunView {
                    raw_json,
                    task,
                    next_id: 2,
                    phase: PhaseView::Waiting { purpose, command, id: "m1"@ },
                };
            match task {
                CommandsView::Status => {
                    &&& progress.actions == sent(bare("start_listening"@))
                    &&& progress.run == waiting(Purpose::Report, "start_listening"@)
                },
                CommandsView::Nodes { dead } => {
                    &&& progress.actions == sent(bare("start_listening"@))
                    &&& progress.run == waiting(
                        Purpose::Listing { dead_only: dead },
                        "start_listening"@,
                    )
                },
                CommandsView::Dead => {
                    &&& progress.actions == sent(bare("start_listening"@))
                    &&& progress.run == waiting(
                        Purpose::Listing { dead_only: true },
                        "start_listening"@,
                    )
                },
                CommandsView::Ping { node_id } => {
                    &&& progress.actions == sent(about("node.ping"@, node_id))
                    &&& progress.run == waiting(Purpose::Show, "node.ping"@)
                },
                CommandsView::IsFailed { node_id } => {
                    &&& progress.actions == sent(about("controller.is_failed_node"@, node_id))
                    &&& progress.run == waiting(Purpose::Show, "controller.is_failed_node"@)
                },
                CommandsView::RemoveFailed { node_id } => {
                    &&& progress.actions == sent(about("controller.is_failed_node"@, node_id))
                    &&& progress.run == waiting(
                        Purpose::Confirm { node_id },
                        "controller.is_failed_node"@,
                    )
                },
                CommandsView::RebuildRoutes => {
                    &&& progress.actions == sent(bare("controller.begin_rebuilding_routes"@))
                    &&& progress.run == waiting(
                        Purpose::Show,
                        "controller.begin_rebuilding_routes"@,
                    )
                },
                CommandsView::Include { timeout } => {
                    &&& progress.actions == sent(bare("controller.begin_inclusion"@))
                    &&& progress.run == waiting(
                        Purpose::Start { timeout },
                        "controller.begin_inclusion"@,
                    )
                },
                CommandsView::Call { command, payload } => match text_document(payload) {
                    Ok(JsonView::Object(members)) => {
                        &&& progress.actions == sent(
                            members.insert("command"@, JsonView::Text(command)).insert(
                                "messageId"@,
                                JsonView::Text("m1"@),
                            ),
                        )
                        &&& progress.run == waiting(Purpose::Show, command)
                    },
                    Ok(_) => {
                        &&& progress.actions == seq![
                            ActionView::Fail(seq!["payload must be a JSON object"@]),
                        ]
                        &&& progress.run.phase is Over
                    },
                    Err(complaint) => {
                        &&& progress.actions == seq![
                            ActionView::Fail(seq!["parse payload JSON"@, complaint]),
                        ]
                        &&& progress.run.phase is Over
                    },
                },
            }
        }),
{
    let first = seq![EventView::Message(greeting)];
    assert(first.drop_last() =~= Seq::empty());
    assert(after(begun(raw_json, task), Seq::empty()) == begun(raw_json, task));
    let run = after(begun(raw_json, task), first);
    assert(run == advanced(begun(raw_json, task), EventView::Message(greeting)).run);
    ids_tell_the_number(1);
    let node_id = match task {
        CommandsView::Ping { node_id } => node_id,
        CommandsView::IsFailed { node_id } => node_id,
        CommandsView::RemoveFailed { node_id } => node_id,
        _ => 0,
    };
    lemma_requests(node_id, "start_listening"@, "m1"@);
    lemma_requests(node_id, "node.ping"@, "m1"@);
    lemma_requests(node_id, "controller.is_failed_node"@, "m1"@);
    lemma_requests(node_id, "controller.begin_rebuilding_routes"@, "m1"@);
    lemma_requests(node_id, "controller.begin_inclusion"@, "m1"@);
    if let CommandsView::Call { payload, .. } = task {
        if let Err(complaint) = text_document(payload) {
            assert(seq!["parse payload JSON"@] + seq![complaint] =~= seq![
                "parse payload JSON"@,
                complaint,
            ]);
        }
    }
}

/// A task of one request, in a conversation in which the server grants what it is asked, prints
/// the result of the answer, or the whole answer where raw JSON is wanted, and is over.
pub proof fn single_requests_print_their_answer(
    raw_json: bool,
    task: CommandsView,
    greeting: JsonView,
    version: u64,
    consent: JsonView,
    answer: JsonView,
)
    requires
        match task {
            CommandsView::Ping { .. } => true,
            CommandsView::IsFailed { .. } => true,
            CommandsView::RebuildRoutes => true,
            CommandsView::Call { payload, .. } => text_document(payload) matches Ok(
                JsonView::Object(_),
            ),
            _ => false,
        },
        greeting.member("maxSchemaVersion"@) == Some(JsonView::Unsigned(version)),
        consent.member("messageId"@) == Some(JsonView::Text("schema"@)),
        consent.member("success"@) == Some(JsonView::Bool(true)),
        answer.member("messageId"@) == Some(JsonView::Text("m1"@)),
        answer.member("success"@) == Some(JsonView::Bool(true)),
    ensures
        advanced(
            after(
                begun(raw_json, task),
                seq![EventView::Message(greeting), EventView::Message(consent)],
            ),
            EventView::Message(answer),
        ).actions == seq![
            ActionView::Print(
                if raw_json {
                    pretty_text(answer)
                } else {
                    match answer.member("result"@) {
                        Some(result) => pretty_text(result),
                        None => "OK"@,
                    }
                },
            ),
            ActionView::Finish,
        ],
{
    lemma_two_steps(begun(raw_json, task), EventView::Message(greeting), EventView::Message(
        consent,
    ));
    each_task_asks_for_what_it_is_about(raw_json, task, greeting, version, consent);
}

/// The state of a run after two events.
proof fn lemma_two_steps(run: RunView, first: EventView, second: EventView)
    ensures
        after(run, seq![first]) == advanced(run, first).run,
        after(run, seq![first, second]) == advanced(after(run, seq![first]), second).run,
{
    assert(seq![first].drop_last() =~= Seq::empty());
    assert(after(run, Seq::empty()) == run);
    assert(seq![first, second].drop_last() =~= seq![first]);
}

/// An answer is printed as its result, or whole where raw JSON is wanted, and the run is over.
pub proof fn shown_answers_end_the_run(
    run: RunView,
    command: Seq<char>,
    id: Seq<char>,
    answer: JsonView,
)
    requires
        run.phase == (PhaseView::Waiting { purpose: Purpose::Show, command, id }),
        answer.member("messageId"@) == Some(JsonView::Text(id)),
        answer.member("success"@) == Some(JsonView::Bool(true)),
    ensures
        advanced(run, EventView::Message(answer)) == (ProgressView {
            run: RunView { phase: PhaseView::Over, ..run },
            actions: seq![
                ActionView::Print(
                    if run.raw_json {
                        pretty_text(answer)
                    } else {
                        match answer.member("result"@) {
                            Some(result) => pretty_text(result),
                            None => "OK"@,
                        }
                    },
                ),
                ActionView::Finish,
            ],
        }),
{
}

/// The report on a network tells the number of all nodes and the number of those whose member
/// `ready` is `true`, the traffic of the controller, and how many nodes have each status.
pub proof fn reports_count_the_nodes_of_the_answer(
    run: RunView,
    command: Seq<char>,
    id: Seq<char>,
    answer: JsonView,
    state: JsonView,
    nodes: Seq<JsonView>,
)
    requires
        run.phase == (PhaseView::Waiting { purpose: Purpose::Report, command, id }),
        answer.member("messageId"@) == Some(JsonView::Text(id)),
        answer.member("success"@) == Some(JsonView::Bool(true)),
        !run.raw_json,
        answer.member_of_member("result"@, "state"@) == Some(state),
        state.member("nodes"@) == Some(JsonView::Array(nodes)),
    ensures
        ({
            let controller = match state.member("controller"@) {
                Some(controller) => controller,
                None => JsonView::Null,
            };
            let statistics = match controller.member("statistics"@) {
                Some(statistics) => statistics,
                None => JsonView::Null,
            };
            let ready = nodes.filter(
                |node: JsonView| node.member("ready"@) == Some(JsonView::Bool(true)),
            ).len();
            advanced(run, EventView::Message(answer)) == ProgressView {
                run: RunView { phase: PhaseView::Over, ..run },
                actions: seq![
                    ActionView::Print(controller_line_text(controller, nodes.len(), ready)),
                    ActionView::Print(traffic_line_text(statistics)),
                    ActionView::Print("Status: "@ + counts_text(status_entries(nodes))),
                    ActionView::Finish,
                ],
            }
        }),
{
    every_ready_node_counts(nodes);
    let progress = advanced(run, EventView::Message(answer));
    assert(progress.actions.len() == 4);
    assert(progress.actions[0] is Print && progress.actions[3] is Finish);
}

/// A report in raw JSON is the answer as it came.
pub proof fn raw_reports_are_the_answer(
    run: RunView,
    command: Seq<char>,
    id: Seq<char>,
    answer: JsonView,
)
    requires
        run.phase == (PhaseView::Waiting { purpose: Purpose::Report, command, id }),
        answer.member("messageId"@) == Some(JsonView::Text(id)),
        answer.member("success"@) == Some(JsonView::Bool(true)),
        run.raw_json,
    ensures
        advanced(run, EventView::Message(answer)) == (ProgressView {
            run: RunView { phase: PhaseView::Over, ..run },
            actions: seq![ActionView::Print(pretty_text(answer)), ActionView::Finish],
        }),
{
}

/// An answer without a list of nodes in its state ends a report and a listing with a failure.
pub proof fn answers_without_nodes_end_the_run(run: RunView, answer: JsonView)
    requires
        match run.phase {
            PhaseView::Waiting { purpose: Purpose::Report, id, .. } => !run.raw_json
                && answer.member("messageId"@) == Some(JsonView::Text(id)),
            PhaseView::Waiting { purpose: Purpose::Listing { .. }, id, .. } => answer.member(
                "messageId"@,
            ) == Some(JsonView::Text(id)),
            _ => false,
        },
        answer.member("success"@) == Some(JsonView::Bool(true)),
        answer.member_of_member("result"@, "state"@) matches Some(state) ==> !(state.member(
            "nodes"@,
        ) matches Some(JsonView::Array(_))),
    ensures
        advanced(run, EventView::Message(answer)) == (ProgressView {
            run: RunView { phase: PhaseView::Over, ..run },
            actions: seq![ActionView::Fail(seq!["state did not contain nodes"@])],
        }),
{
}

/// A listing shows the nodes of the answer in their order: all of them, or those that are not
/// ready or have the status dead. Each has one row under the head, or they are one list where raw
/// JSON is wanted.
pub proof fn listings_show_the_nodes_of_the_answer(
    run: RunView,
    dead_only: bool,
    command: Seq<char>,
    id: Seq<char>,
    answer: JsonView,
    state: JsonView,
    nodes: Seq<JsonView>,
    i: int,
)
    requires
        run.phase == (PhaseView::Waiting { purpose: Purpose::Listing { dead_only }, command, id }),
        answer.member("messageId"@) == Some(JsonView::Text(id)),
        answer.member("success"@) == Some(JsonView::Bool(true)),
        answer.member_of_member("result"@, "state"@) == Some(state),
        state.member("nodes"@) == Some(JsonView::Array(nodes)),
    ensures
        ({
            let progress = advanced(run, EventView::Message(answer));
            let shown = if dead_only {
                nodes.filter(
                    |node: JsonView|
                        node.member("ready"@) != Some(JsonView::Bool(true)) || node.member(
                            "status"@,
                        ) == Some(JsonView::Unsigned(3)),
                )
            } else {
                nodes
            };
            &&& progress.run == RunView { phase: PhaseView::Over, ..run }
            &&& run.raw_json ==> progress.actions == seq![
                ActionView::Print(pretty_text(JsonView::Array(shown))),
                ActionView::Finish,
            ]
            &&& !run.raw_json ==> {
                &&& progress.actions.len() == shown.len() + 2
                &&& progress.actions[0] == ActionView::Print(table_head_text())
                &&& 0 <= i < shown.len() ==> progress.actions[i + 1] == ActionView::Print(
                    table_row_text(shown[i]),
                )
                &&& progress.actions.last() == ActionView::Finish
            }
        }),
{
    only_dead_and_unready_nodes_are_listed(nodes);
}

/// While a run that is to remove a node waits for the answer to its first request, a successful
/// answer leads to the removal of exactly that node if its result, or the member `failed` of its
/// result, is `true`. Every other successful answer, one with `false` there among them, ends the
/// run with a failure and nothing is sent.
pub proof fn removal_needs_the_word_of_the_controller(
    raw_json: bool,
    node_id: u32,
    events: Seq<EventView>,
    answer: JsonView,
)
    requires
        after(begun(raw_json, CommandsView::RemoveFailed { node_id }), events).next_id == 2,
        !(after(begun(raw_json, CommandsView::RemoveFailed { node_id }), events).phase is Over),
        answer.member("messageId"@) == Some(JsonView::Text("m1"@)),
        answer.member("success"@) == Some(JsonView::Bool(true)),
    ensures
        ({
            let run = after(begun(raw_json, CommandsView::RemoveFailed { node_id }), events);
            let progress = advanced(run, EventView::Message(answer));
            let confirmed = answer.member("result"@) == Some(JsonView::Bool(true))
                || answer.member_of_member("result"@, "failed"@) == Some(JsonView::Bool(true));
            &&& confirmed ==> progress.actions == seq![
                ActionView::Send(
                    compact_text(
                        JsonView::Object(
                            map![
                                "command"@ => JsonView::Text("controller.remove_failed_node"@),
                                "messageId"@ => JsonView::Text("m2"@),
                                "nodeId"@ => JsonView::Unsigned(node_id as u64),
                            ],
                        ),
                    ),
                ),
                ActionView::Receive,
            ] && progress.run == RunView {
                next_id: 3,
                phase: PhaseView::Waiting {
                    purpose: Purpose::Show,
                    command: "controller.remove_failed_node"@,
                    id: "m2"@,
                },
                ..run
            }
            &&& !confirmed ==> progress.run.phase is Over && progress.actions == seq![
                ActionView::Fail(
                    seq![
                        "node "@ + decimal(node_id as nat)
                            + " is not marked failed by the controller"@,
                    ],
                ),
            ]
            &&& answer.member("result"@) == Some(JsonView::Bool(false)) || answer.member_of_member(
                "result"@,
                "failed"@,
            ) == Some(JsonView::Bool(false)) ==> progress.run.phase is Over
                && progress.actions.len() == 1 && progress.actions[0] is Fail
        }),
{
    lemma_awaits_confirmation(raw_json, node_id, events);
    ids_tell_the_number(1);
    ids_tell_the_number(2);
    lemma_requests(node_id, "controller.remove_failed_node"@, "m2"@);
}

/// Where a run that is to remove a node can stand.
proof fn lemma_awaits_confirmation(raw_json: bool, node_id: u32, events: Seq<EventView>)
    ensures
        ({
            let run = after(begun(raw_json, CommandsView::RemoveFailed { node_id }), events);
            &&& run.task == CommandsView::RemoveFailed { node_id }
            &&& run.raw_json == raw_json
            &&& match run.phase {
                PhaseView::Greeting => run.next_id == 1,
                PhaseView::Schema => run.next_id == 1,
                PhaseView::Waiting { purpose: Purpose::Confirm { node_id: n }, command, id } => {
                    &&& run.next_id == 2
                    &&& n == node_id
                    &&& command == "controller.is_failed_node"@
                    &&& id == "m1"@
                },
                PhaseView::Waiting { purpose: Purpose::Show, command, id } => {
                    &&& run.next_id == 3
                    &&& command == "controller.remove_failed_node"@
                    &&& id == "m2"@
                },
                PhaseView::Over => true,
                _ => false,
            }
        }),
    decreases events.len(),
{
    ids_tell_the_number(1);
    ids_tell_the_number(2);
    if events.len() > 0 {
        lemma_awaits_confirmation(raw_json, node_id, events.drop_last());
    }
}

/// Once a run that is to remove a node has made its first request, it sends something more only on
/// a successful answer to that request whose result, or the member `failed` of it, is `true`.
pub proof fn nothing_but_confirmation_leads_to_removal(
    raw_json: bool,
    node_id: u32,
    events: Seq<EventView>,
    event: EventView,
    text: Seq<char>,
)
    requires
        after(begun(raw_json, CommandsView::RemoveFailed { node_id }), events).next_id >= 2,
        advanced(
            after(begun(raw_json, CommandsView::RemoveFailed { node_id }), events),
            event,
        ).actions.contains(ActionView::Send(text)),
    ensures
        event matches EventView::Message(answer) && {
            &&& answer.member("messageId"@) == Some(JsonView::Text("m1"@))
            &&& answer.member("success"@) == Some(JsonView::Bool(true))
            &&& {
                ||| answer.member("result"@) == Some(JsonView::Bool(true))
                ||| answer.member_of_member("result"@, "failed"@) == Some(JsonView::Bool(true))
            }
        },
{
    lemma_awaits_confirmation(raw_json, node_id, events);
}

/// When inclusion has started, the answer is printed, the time for listening is announced and set
/// to the same number of seconds, and the run listens.
pub proof fn listening_lasts_as_long_as_announced(
    run: RunView,
    timeout: u64,
    command: Seq<char>,
    id: Seq<char>,
    answer: JsonView,
)
    requires
        run.phase == (PhaseView::Waiting { purpose: Purpose::Start { timeout }, command, id }),
        answer.member("messageId"@) == Some(JsonView::Text(id)),
        answer.member("success"@) == Some(JsonView::Bool(true)),
    ensures
        advanced(run, EventView::Message(answer)) == (ProgressView {
            run: RunView { phase: PhaseView::Listening, ..run },
            actions: seq![
                ActionView::Print(
                    if run.raw_json {
                        pretty_text(answer)
                    } else {
                        match answer.member("result"@) {
                            Some(result) => pretty_text(result),
                            None => "OK"@,
                        }
                    },
                ),
                ActionView::Note(
                    "Inclusion started; listening for "@ + decimal(timeout as nat) + "s..."@,
                ),
                ActionView::Clock(timeout),
                ActionView::Listen,
            ],
        }),
{
}

/// Where a run that includes nodes can stand.
proof fn lemma_includes(raw_json: bool, timeout: u64, events: Seq<EventView>)
    ensures
        ({
            let run = after(begun(raw_json, CommandsView::Include { timeout }), events);
            &&& run.task == CommandsView::Include { timeout }
            &&& run.raw_json == raw_json
            &&& match run.phase {
                PhaseView::Greeting => run.next_id == 1,
                PhaseView::Schema => run.next_id == 1,
                PhaseView::Waiting { purpose: Purpose::Start { timeout: seconds }, .. } => {
                    &&& run.next_id == 2
                    &&& seconds == timeout
                },
                PhaseView::Waiting { purpose: Purpose::Stop, .. } => run.next_id == 3,
                PhaseView::Listening => run.next_id == 2,
                PhaseView::Over => true,
                _ => false,
            }
        }),
    decreases events.len(),
{
    if events.len() > 0 {
        lemma_includes(raw_json, timeout, events.drop_last());
    }
}

/// The time is set to what the awaited start of inclusion is to be followed by.
proof fn lemma_clock_carries_the_timeout(run: RunView, event: EventView, i: int)
    requires
        0 <= i < advanced(run, event).actions.len(),
        advanced(run, event).actions[i] is Clock,
    ensures
        run.phase matches PhaseView::Waiting { purpose: Purpose::Start { timeout }, .. }
            && advanced(run, event).actions[i] == ActionView::Clock(timeout),
{
}

/// In the course of a run that includes nodes, the time for listening is never set to anything but
/// the time that was asked for.
pub proof fn only_the_timeout_is_set(
    raw_json: bool,
    timeout: u64,
    events: Seq<EventView>,
    seconds: u64,
)
    requires
        actions_of(begun(raw_json, CommandsView::Include { timeout }), events).contains(
            ActionView::Clock(seconds),
        ),
    ensures
        seconds == timeout,
    decreases events.len(),
{
    let run = begun(raw_json, CommandsView::Include { timeout });
    if events.len() > 0 {
        let earlier = events.drop_last();
        lemma_includes(raw_json, timeout, earlier);
        let old = actions_of(run, earlier);
        let now = advanced(after(run, earlier), events.last()).actions;
        let i = choose|i: int|
            0 <= i < (old + now).len() && (old + now)[i] == ActionView::Clock(seconds);
        if i < old.len() {
            assert(old[i] == ActionView::Clock(seconds));
            only_the_timeout_is_set(raw_json, timeout, earlier, seconds);
        } else {
            lemma_clock_carries_the_timeout(after(run, earlier), events.last(), i - old.len());
        }
    }
}

/// A run that includes nodes begins to listen only together with setting the time that was asked
/// for, on a successful answer to its first request.
pub proof fn listening_begins_with_the_clock(
    raw_json: bool,
    timeout: u64,
    events: Seq<EventView>,
    event: EventView,
)
    requires
        !(after(begun(raw_json, CommandsView::Include { timeout }), events).phase is Listening),
        advanced(
            after(begun(raw_json, CommandsView::Include { timeout }), events),
            event,
        ).run.phase is Listening,
    ensures
        ({
            let actions = advanced(
                after(begun(raw_json, CommandsView::Include { timeout }), events),
                event,
            ).actions;
            &&& actions.len() == 4
            &&& actions[1] == ActionView::Note(
                "Inclusion started; listening for "@ + decimal(timeout as nat) + "s..."@,
            )
            &&& actions[2] == ActionView::Clock(timeout)
            &&& actions[3] == ActionView::Listen
        }),
        event matches EventView::Message(answer) && answer.member("success"@) == Some(
            JsonView::Bool(true),
        ),
{
    lemma_includes(raw_json, timeout, events);
}

/// Whether a run has not begun to listen yet.
spec fn before_listening(run: RunView) -> bool {
    match run.phase {
        PhaseView::Greeting => true,
        PhaseView::Schema => true,
        PhaseView::Waiting { purpose: Purpose::Start { .. }, .. } => true,
        _ => false,
    }
}

/// One step sets the time at most once, and then the run has begun to listen.
proof fn lemma_clock_in_step(run: RunView, event: EventView, i: int, j: int)
    requires
        0 <= i < advanced(run, event).actions.len(),
        advanced(run, event).actions[i] is Clock,
    ensures
        before_listening(run),
        advanced(run, event).run.phase is Listening,
        0 <= j < advanced(run, event).actions.len() && advanced(run, event).actions[j] is Clock
            ==> i == j,
{
}

/// A run that has begun to listen does not go back.
proof fn lemma_no_way_back(run: RunView, event: EventView)
    requires
        !before_listening(run),
    ensures
        !before_listening(advanced(run, event).run),
{
}

/// The time for listening is set at most once in a run.
pub proof fn the_clock_is_set_once(
    raw_json: bool,
    task: CommandsView,
    events: Seq<EventView>,
    i: int,
    j: int,
)
    requires
        0 <= i < actions_of(begun(raw_json, task), events).len(),
        0 <= j < actions_of(begun(raw_json, task), events).len(),
        actions_of(begun(raw_json, task), events)[i] is Clock,
        actions_of(begun(raw_json, task), events)[j] is Clock,
    ensures
        i == j,
    decreases events.len(),
{
    let run = begun(raw_json, task);
    if events.len() > 0 {
        let earlier = events.drop_last();
        let before = after(run, earlier);
        let old = actions_of(run, earlier);
        let now = advanced(before, events.last()).actions;
        assert(actions_of(run, events) == old + now);
        if i < old.len() && j < old.len() {
            the_clock_is_set_once(raw_json, task, earlier, i, j);
        } else if i >= old.len() && j >= old.len() {
            assert(now[i - old.len()] is Clock && now[j - old.len()] is Clock);
            lemma_clock_in_step(before, events.last(), i - old.len(), j - old.len());
        } else {
            let (first, second) = if i < j {
                (i, j)
            } else {
                (j, i)
            };
            assert(old[first] is Clock);
            lemma_clock_was_set(raw_json, task, earlier, first);
            assert(now[second - old.len()] is Clock);
            lemma_clock_in_step(before, events.last(), second - old.len(), second - old.len());
        }
    }
}

/// A run that has set the time has begun to listen.
proof fn lemma_clock_was_set(raw_json: bool, task: CommandsView, events: Seq<EventView>, i: int)
    requires
        0 <= i < actions_of(begun(raw_json, task), events).len(),
        actions_of(begun(raw_json, task), events)[i] is Clock,
    ensures
        !before_listening(after(begun(raw_json, task), events)),
    decreases events.len(),
{
    let run = begun(raw_json, task);
    if events.len() > 0 {
        let earlier = events.drop_last();
        let before = after(run, earlier);
        let old = actions_of(run, earlier);
        let now = advanced(before, events.last()).actions;
        if i < old.len() {
            assert(old[i] is Clock);
            lemma_clock_was_set(raw_json, task, earlier, i);
            lemma_no_way_back(before, events.last());
        } else {
            assert(now[i - old.len()] is Clock);
            lemma_clock_in_step(before, events.last(), i - old.len(), i - old.len());
        }
    }
}

/// One step of a run that neither listens nor waits for inclusion to start.
proof fn lemma_step_without_listening(run: RunView, event: EventView, i: int)
    requires
        !(run.phase is Listening),
        !(run.phase matches PhaseView::Waiting { purpose: Purpose::Start { .. }, .. }),
        0 <= i < advanced(run, event).actions.len(),
    ensures
        !(advanced(run, event).actions[i] is Listen),
        !(advanced(run, event).actions[i] is Clock),
{
}

/// A run that does not include nodes never listens and sets no time.
pub proof fn only_inclusion_listens(
    raw_json: bool,
    task: CommandsView,
    events: Seq<EventView>,
    i: int,
)
    requires
        !(task is Include),
        0 <= i < actions_of(begun(raw_json, task), events).len(),
    ensures
        !(actions_of(begun(raw_json, task), events)[i] is Listen),
        !(actions_of(begun(raw_json, task), events)[i] is Clock),
    decreases events.len(),
{
    let run = begun(raw_json, task);
    if events.len() > 0 {
        let earlier = events.drop_last();
        tasks_keep_to_their_commands(raw_json, task, earlier);
        let old = actions_of(run, earlier);
        let now = advanced(after(run, earlier), events.last()).actions;
        if i < old.len() {
            only_inclusion_listens(raw_json, task, earlier, i);
        } else {
            assert((old + now)[i] == now[i - old.len()]);
            lemma_step_without_listening(after(run, earlier), events.last(), i - old.len());
        }
    }
}

/// While a run listens, every message is printed and listening goes on, silence changes nothing,
/// and at the deadline the run asks to stop.
pub proof fn everything_heard_is_printed(run: RunView, message: JsonView, silence: Seq<Seq<char>>)
    requires
        run.phase is Listening,
        run.next_id == 2,
    ensures
        advanced(run, EventView::Message(message)) == (ProgressView {
            run,
            actions: seq![
                ActionView::Print(
                    if run.raw_json {
                        pretty_text(message)
                    } else {
                        event_text(message)
                    },
                ),
                ActionView::Listen,
            ],
        }),
        advanced(run, EventView::Silent(silence)) == (ProgressView {
            run,
            actions: seq![ActionView::Listen],
        }),
        advanced(run, EventView::Deadline) == (ProgressView {
            run: RunView {
                next_id: 3,
                phase: PhaseView::Waiting {
                    purpose: Purpose::Stop,
                    command: "controller.stop_inclusion"@,
                    id: "m2"@,
                },
                ..run
            },
            actions: seq![
                ActionView::Send(
                    compact_text(
                        JsonView::Object(
                            map![
                                "command"@ => JsonView::Text("controller.stop_inclusion"@),
                                "messageId"@ => JsonView::Text("m2"@),
                            ],
                        ),
                    ),
                ),
                ActionView::Receive,
            ],
        }),
{
    ids_tell_the_number(2);
    lemma_requests(0, "controller.stop_inclusion"@, "m2"@);
}

/// When inclusion has stopped, that is noted, the answer is printed, and the run is over.
pub proof fn the_end_of_inclusion_is_noted(
    run: RunView,
    command: Seq<char>,
    id: Seq<char>,
    answer: JsonView,
)
    requires
        run.phase == (PhaseView::Waiting { purpose: Purpose::Stop, command, id }),
        answer.member("messageId"@) == Some(JsonView::Text(id)),
        answer.member("success"@) == Some(JsonView::Bool(true)),
    ensures
        advanced(run, EventView::Message(answer)) == (ProgressView {
            run: RunView { phase: PhaseView::Over, ..run },
            actions: seq![
                ActionView::Note("Inclusion stopped."@),
                ActionView::Print(
                    if run.raw_json {
                        pretty_text(answer)
                    } else {
                        match answer.member("result"@) {
                            Some(result) => pretty_text(result),
                            None => "OK"@,
                        }
                    },
                ),
                ActionView::Finish,
            ],
        }),
{
    assert(advanced(run, EventView::Message(answer)).actions.len() == 3);
}

/// A failure to read or to send ends every run that is not over, and so does silence except while
/// the run listens. The failure tells what was being done, from the outside in.
pub proof fn failures_end_the_run_in_context(run: RunView, event: EventView, cause: Seq<Seq<char>>)
    requires
        !(run.phase is Over),
        event == EventView::ReadFailed(cause) || event == EventView::SendFailed(cause) || (event
            == EventView::Silent(cause) && !(run.phase is Listening)),
    ensures
        ({
            let told = match run.phase {
                PhaseView::Waiting { purpose, command, .. } => {
                    let doing = if event is SendFailed {
                        "send "@ + command
                    } else {
                        "wait for "@ + command
                    };
                    match purpose {
                        Purpose::Start { .. } => seq!["start inclusion"@, doing] + cause,
                        Purpose::Stop => seq!["stop inclusion"@, doing] + cause,
                        _ => seq![doing] + cause,
                    }
                },
                PhaseView::Listening => if event is SendFailed {
                    cause
                } else {
                    seq!["read inclusion event"@] + cause
                },
                _ => cause,
            };
            advanced(run, event) == ProgressView {
                run: RunView { phase: PhaseView::Over, ..run },
                actions: seq![ActionView::Fail(told)],
            }
        }),
{
    if let PhaseView::Waiting { command, .. } = run.phase {
        let doing = if event is SendFailed {
            "send "@ + command
        } else {
            "wait for "@ + command
        };
        assert(seq!["start inclusion"@] + (seq![doing] + cause) =~= seq!["start inclusion"@, doing]
            + cause);
        assert(seq!["stop inclusion"@] + (seq![doing] + cause) =~= seq!["stop inclusion"@, doing]
            + cause);
    }
}

/// The deadline means nothing to a run that does not listen.
pub proof fn the_deadline_is_for_listening(run: RunView)
    requires
        !(run.phase is Listening),
        !(run.phase is Over),
    ensures
        advanced(run, EventView::Deadline) == (ProgressView {
            run,
            actions: seq![ActionView::Receive],
        }),
{
}

/// One step ends the run at its last action or not at all.
proof fn lemma_step_ends_last(run: RunView, event: EventView, i: int)
    requires
        0 <= i < advanced(run, event).actions.len(),
        advanced(run, event).actions[i] is Finish || advanced(run, event).actions[i] is Fail,
    ensures
        i == advanced(run, event).actions.len() - 1,
        advanced(run, event).run.phase is Over,
{
}

/// A run ends at most once and does nothing after that, and it is over if and only if it has ended.
pub proof fn runs_end_once(raw_json: bool, task: CommandsView, events: Seq<EventView>, i: int)
    ensures
        ({
            let actions = actions_of(begun(raw_json, task), events);
            let over = after(begun(raw_json, task), events).phase is Over;
            &&& 0 <= i < actions.len() && (actions[i] is Finish || actions[i] is Fail) ==> i
                == actions.len() - 1 && over
            &&& over ==> actions.len() > 0 && (actions.last() is Finish || actions.last() is Fail)
        }),
    decreases events.len(),
{
    let run = begun(raw_json, task);
    if events.len() > 0 {
        let earlier = events.drop_last();
        let before = after(run, earlier);
        let old = actions_of(run, earlier);
        let now = advanced(before, events.last()).actions;
        assert(actions_of(run, events) == old + now);
        runs_end_once(raw_json, task, earlier, i);
        if before.phase is Over {
            assert(old + now =~= old);
        } else {
            last_action_decides(before, events.last());
            assert((old + now).last() == now.last());
            if old.len() <= i < old.len() + now.len() {
                assert((old + now)[i] == now[i - old.len()]);
                if now[i - old.len()] is Finish || now[i - old.len()] is Fail {
                    lemma_step_ends_last(before, events.last(), i - old.len());
                }
            }
        }
    }
}

/// Whether raw JSON is wanted makes no difference to where a run stands and to what it sends.
pub proof fn raw_json_changes_only_what_is_printed(
    task: CommandsView,
    events: Seq<EventView>,
    event: EventView,
    text: Seq<char>,
)
    ensures
        after(begun(true, task), events) == (RunView {
            raw_json: true,
            ..after(begun(false, task), events)
        }),
        advanced(after(begun(true, task), events), event).actions.contains(ActionView::Send(text))
            <==> advanced(after(begun(false, task), events), event).actions.contains(
            ActionView::Send(text),
        ),
    decreases events.len(),
{
    tasks_keep_to_their_commands(false, task, events);
    if events.len() > 0 {
        raw_json_changes_only_what_is_printed(task, events.drop_last(), event, text);
        tasks_keep_to_their_commands(false, task, events.drop_last());
    }
    lemma_same_sent(after(begun(false, task), events), event, text);
}

/// Two runs that differ only in whether raw JSON is wanted send the same.
proof fn lemma_same_sent(run: RunView, event: EventView, text: Seq<char>)
    requires
        !run.raw_json,
    ensures
        advanced(RunView { raw_json: true, ..run }, event).actions.contains(ActionView::Send(text))
            <==> advanced(run, event).actions.contains(ActionView::Send(text)),
{
    let raw = advanced(RunView { raw_json: true, ..run }, event).actions;
    let plain = advanced(run, event).actions;
    if raw.contains(ActionView::Send(text)) {
        let i = choose|i: int| 0 <= i < raw.len() && raw[i] == ActionView::Send(text);
        assert(plain[i] == ActionView::Send(text));
    }
    if plain.contains(ActionView::Send(text)) {
        let i = choose|i: int| 0 <= i < plain.len() && plain[i] == ActionView::Send(text);
        assert(raw[i] == ActionView::Send(text));
    }
}

/// A report counts the nodes that it is given and takes the rest from the state in the answer.
pub proof fn reports_count_the_given_nodes(answer: JsonView, nodes: Seq<JsonView>)
    ensures
        ({
            let controller = match answer.member_of_member("result"@, "state"@) {
                Some(state) => match state.member("controller"@) {
                    Some(controller) => controller,
                    None => JsonView::Null,
                },
                None => JsonView::Null,
            };
            let statistics = match controller.member("statistics"@) {
                Some(statistics) => statistics,
                None => JsonView::Null,
            };
            let ready = nodes.filter(
                |node: JsonView| node.member("ready"@) == Some(JsonView::Bool(true)),
            ).len();
            report(answer, nodes) == seq![
                ActionView::Print(controller_line_text(controller, nodes.len(), ready)),
                ActionView::Print(traffic_line_text(statistics)),
                ActionView::Print("Status: "@ + counts_text(status_entries(nodes))),
            ]
        }),
{
    every_ready_node_counts(nodes);
}

/// A table has its head and then one row for each node, in their order.
pub proof fn tables_have_a_row_for_each_node(nodes: Seq<JsonView>, i: int)
    ensures
        table(nodes).len() == nodes.len() + 1,
        table(nodes)[0] == ActionView::Print(table_head_text()),
        0 <= i < nodes.len() ==> table(nodes)[i + 1] == ActionView::Print(
            table_row_text(nodes[i]),
        ),
{
}

/// A call sends its payload with the command and the id, and what is wrong with the payload ends
/// the run before anything is sent.
pub proof fn calls_send_their_payload(
    run: RunView,
    command: Seq<char>,
    members: Map<Seq<char>, JsonView>,
    failure: Seq<Seq<char>>,
)
    requires
        run.next_id == 1,
    ensures
        call_begun(run, command, Ok(JsonView::Object(members))) == (ProgressView {
            run: RunView {
                next_id: 2,
                phase: PhaseView::Waiting { purpose: Purpose::Show, command, id: "m1"@ },
                ..run
            },
            actions: seq![
                ActionView::Send(
                    compact_text(
                        JsonView::Object(
                            members.insert("command"@, JsonView::Text(command)).insert(
                                "messageId"@,
                                JsonView::Text("m1"@),
                            ),
                        ),
                    ),
                ),
                ActionView::Receive,
            ],
        }),
        call_begun(run, command, Err(failure)) == (ProgressView {
            run: RunView { phase: PhaseView::Over, ..run },
            actions: seq![ActionView::Fail(failure)],
        }),
{
    ids_tell_the_number(1);
}

} // verus!

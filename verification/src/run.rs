//! One run of the client, from the server's greeting to the last line printed.
//!
//! The run is a state machine. It is told what happened and answers with what to do. The caller
//! does those things in order and tells the run what came of the last one.

use vstd::prelude::*;
use vstd::string::*;
use crate::codec::{compact_text, pretty, pretty_list, pretty_text, text_document};
use crate::controller::{controller_line, controller_line_text, traffic_line, traffic_line_text};
use crate::counts::{counts_text, format_counts};
use crate::failure::{in_context, Failure};
use crate::json::{array_of, list_view, option_view, Json, JsonView};
use crate::nodes::{
    list_nodes, listed, ready_count, refs_view, status_entries, summarize_network, table_head,
    table_head_text, table_row, table_row_text,
};
use crate::protocol::{
    answers, checked_payload, empty_payload, empty_payload_value, ensure_success,
    inclusion_event_text, is_answer, is_failed_node_result, max_schema, message_id, node_payload,
    node_payload_value, parse_call_payload, payload_view, refusal, request_members, result_text,
    says_failed, schema_request, schema_request_value, schema_version, show_inclusion_event,
    show_result, succeeded, ZwaveClient,
};
use crate::text::{decimal, decimal_text};

verus! {

/// What the client is asked to do.
pub enum Commands {
    /// Show controller status and network summary.
    Status,
    /// List nodes, or only those that are dead or not ready.
    Nodes { dead: bool },
    /// List nodes that are dead or not ready.
    Dead,
    /// Ping a node.
    Ping { node_id: u32 },
    /// Ask the controller whether a node is failed.
    IsFailed { node_id: u32 },
    /// Remove a node after the controller confirms that it is failed.
    RemoveFailed { node_id: u32 },
    /// Start route rebuilding.
    RebuildRoutes,
    /// Start inclusion, print what happens, and stop after some seconds.
    Include { timeout: u64 },
    /// Call a command of the server with a JSON payload.
    Call { command: String, payload: String },
}

/// The value of [`Commands`].
pub enum CommandsView {
    Status,
    Nodes { dead: bool },
    Dead,
    Ping { node_id: u32 },
    IsFailed { node_id: u32 },
    RemoveFailed { node_id: u32 },
    RebuildRoutes,
    Include { timeout: u64 },
    Call { command: Seq<char>, payload: Seq<char> },
}

impl View for Commands {
    type V = CommandsView;

    open spec fn view(&self) -> CommandsView {
        match self {
            Commands::Status => CommandsView::Status,
            Commands::Nodes { dead } => CommandsView::Nodes { dead: *dead },
            Commands::Dead => CommandsView::Dead,
            Commands::Ping { node_id } => CommandsView::Ping { node_id: *node_id },
            Commands::IsFailed { node_id } => CommandsView::IsFailed { node_id: *node_id },
            Commands::RemoveFailed { node_id } => CommandsView::RemoveFailed { node_id: *node_id },
            Commands::RebuildRoutes => CommandsView::RebuildRoutes,
            Commands::Include { timeout } => CommandsView::Include { timeout: *timeout },
            Commands::Call { command, payload } => CommandsView::Call {
                command: command@,
                payload: payload@,
            },
        }
    }
}

/// What an answer is wanted for.
#[derive(Clone, Copy)]
pub enum Purpose {
    /// To report on the controller and the network.
    Report,
    /// To list the nodes, or only those that are dead or not ready.
    Listing { dead_only: bool },
    /// To print it.
    Show,
    /// To learn whether the node is failed, and to remove it if it is.
    Confirm { node_id: u32 },
    /// To know that inclusion has started, and to listen for that many seconds.
    Start { timeout: u64 },
    /// To know that inclusion has stopped.
    Stop,
}

/// Where a run stands.
pub enum Phase {
    /// Waiting for the server's greeting.
    Greeting,
    /// Waiting for the answer to the schema request.
    Schema,
    /// Waiting for the answer to a request.
    Waiting { purpose: Purpose, command: String, id: String },
    /// Waiting for what happens during inclusion.
    Listening,
    /// Nothing more to do.
    Over,
}

/// The value of [`Phase`].
pub enum PhaseView {
    Greeting,
    Schema,
    Waiting { purpose: Purpose, command: Seq<char>, id: Seq<char> },
    Listening,
    Over,
}

impl View for Phase {
    type V = PhaseView;

    open spec fn view(&self) -> PhaseView {
        match self {
            Phase::Greeting => PhaseView::Greeting,
            Phase::Schema => PhaseView::Schema,
            Phase::Waiting { purpose, command, id } => PhaseView::Waiting {
                purpose: *purpose,
                command: command@,
                id: id@,
            },
            Phase::Listening => PhaseView::Listening,
            Phase::Over => PhaseView::Over,
        }
    }
}

/// What happened.
pub enum Event {
    /// A message came.
    Message(Json),
    /// Nothing was heard within the time limit for a message.
    Silent(Failure),
    /// No message could be read.
    ReadFailed(Failure),
    /// The text could not be sent.
    SendFailed(Failure),
    /// The time for listening is over.
    Deadline,
}

/// The value of [`Event`].
pub enum EventView {
    Message(JsonView),
    Silent(Seq<Seq<char>>),
    ReadFailed(Seq<Seq<char>>),
    SendFailed(Seq<Seq<char>>),
    Deadline,
}

impl View for Event {
    type V = EventView;

    open spec fn view(&self) -> EventView {
        match self {
            Event::Message(json) => EventView::Message(json@),
            Event::Silent(failure) => EventView::Silent(failure@),
            Event::ReadFailed(failure) => EventView::ReadFailed(failure@),
            Event::SendFailed(failure) => EventView::SendFailed(failure@),
            Event::Deadline => EventView::Deadline,
        }
    }
}

/// What to do.
pub enum Action {
    /// Send a text. If that fails, the rest of the actions is void.
    Send(String),
    /// Wait for a message.
    Receive,
    /// Set the deadline for listening, in seconds from now.
    Clock(u64),
    /// Wait for a message until the deadline.
    Listen,
    /// Print a line.
    Print(String),
    /// Print a line beside the output proper.
    Note(String),
    /// End the run with a failure.
    Fail(Failure),
    /// End the run.
    Finish,
}

/// The value of [`Action`].
pub enum ActionView {
    Send(Seq<char>),
    Receive,
    Clock(u64),
    Listen,
    Print(Seq<char>),
    Note(Seq<char>),
    Fail(Seq<Seq<char>>),
    Finish,
}

impl View for Action {
    type V = ActionView;

    open spec fn view(&self) -> ActionView {
        match self {
            Action::Send(text) => ActionView::Send(text@),
            Action::Receive => ActionView::Receive,
            Action::Clock(seconds) => ActionView::Clock(*seconds),
            Action::Listen => ActionView::Listen,
            Action::Print(line) => ActionView::Print(line@),
            Action::Note(line) => ActionView::Note(line@),
            Action::Fail(failure) => ActionView::Fail(failure@),
            Action::Finish => ActionView::Finish,
        }
    }
}

/// The values of a list of actions.
pub open spec fn actions_view(actions: Seq<Action>) -> Seq<ActionView> {
    actions.map_values(|action: Action| action@)
}

/// The state of a run.
pub struct RunView {
    pub raw_json: bool,
    pub task: CommandsView,
    pub next_id: u64,
    pub phase: PhaseView,
}

/// The state after an event, and what to do then.
#[verifier::ext_equal]
pub struct ProgressView {
    pub run: RunView,
    pub actions: Seq<ActionView>,
}

/// A run that has just begun.
pub open spec fn begun(raw_json: bool, task: CommandsView) -> RunView {
    RunView { raw_json, task, next_id: 1, phase: PhaseView::Greeting }
}

/// The run goes on as before.
pub open spec fn unmoved(run: RunView, actions: Seq<ActionView>) -> ProgressView {
    ProgressView { run, actions }
}

/// The run ends with a failure.
pub open spec fn failed(run: RunView, failure: Seq<Seq<char>>) -> ProgressView {
    ProgressView {
        run: RunView { phase: PhaseView::Over, ..run },
        actions: seq![ActionView::Fail(failure)],
    }
}

/// The run ends after some last actions.
pub open spec fn finished(run: RunView, actions: Seq<ActionView>) -> ProgressView {
    ProgressView {
        run: RunView { phase: PhaseView::Over, ..run },
        actions: actions.push(ActionView::Finish),
    }
}

/// The run sends its next request and waits for the answer.
pub open spec fn asked(
    run: RunView,
    purpose: Purpose,
    command: Seq<char>,
    payload: JsonView,
) -> ProgressView {
    let id = message_id(run.next_id as nat);
    ProgressView {
        run: RunView {
            next_id: (run.next_id + 1) as u64,
            phase: PhaseView::Waiting { purpose, command, id },
            ..run
        },
        actions: seq![
            ActionView::Send(
                compact_text(JsonView::Object(request_members(payload->Object_0, command, id))),
            ),
            ActionView::Receive,
        ],
    }
}

/// The run sends the request of a call, unless there is something wrong with its payload.
pub open spec fn call_begun(
    run: RunView,
    command: Seq<char>,
    payload: Result<JsonView, Seq<Seq<char>>>,
) -> ProgressView {
    match payload {
        Ok(value) => asked(run, Purpose::Show, command, value),
        Err(failure) => failed(run, failure),
    }
}

/// The run sends the first request of its task.
pub open spec fn task_begun(run: RunView) -> ProgressView {
    match run.task {
        CommandsView::Status => asked(
            run,
            Purpose::Report,
            "start_listening"@,
            empty_payload_value(),
        ),
        CommandsView::Nodes { dead } => asked(
            run,
            Purpose::Listing { dead_only: dead },
            "start_listening"@,
            empty_payload_value(),
        ),
        CommandsView::Dead => asked(
            run,
            Purpose::Listing { dead_only: true },
            "start_listening"@,
            empty_payload_value(),
        ),
        CommandsView::Ping { node_id } => asked(
            run,
            Purpose::Show,
            "node.ping"@,
            node_payload_value(node_id),
        ),
        CommandsView::IsFailed { node_id } => asked(
            run,
            Purpose::Show,
            "controller.is_failed_node"@,
            node_payload_value(node_id),
        ),
        CommandsView::RemoveFailed { node_id } => asked(
            run,
            Purpose::Confirm { node_id },
            "controller.is_failed_node"@,
            node_payload_value(node_id),
        ),
        CommandsView::RebuildRoutes => asked(
            run,
            Purpose::Show,
            "controller.begin_rebuilding_routes"@,
            empty_payload_value(),
        ),
        CommandsView::Include { timeout } => asked(
            run,
            Purpose::Start { timeout },
            "controller.begin_inclusion"@,
            empty_payload_value(),
        ),
        CommandsView::Call { command, payload } => call_begun(
            run,
            command,
            checked_payload(text_document(payload)),
        ),
    }
}

/// A failure of a request, seen from what its answer was wanted for.
pub open spec fn in_purpose(purpose: Purpose, failure: Seq<Seq<char>>) -> Seq<Seq<char>> {
    match purpose {
        Purpose::Start { .. } => in_context("start inclusion"@, failure),
        Purpose::Stop => in_context("stop inclusion"@, failure),
        _ => failure,
    }
}

/// A member of the state that the server reports.
pub open spec fn state_member(message: JsonView, name: Seq<char>) -> Option<JsonView> {
    match message.member_of_member("result"@, "state"@) {
        Some(state) => state.member(name),
        None => None,
    }
}

/// The nodes that the server reports.
pub open spec fn reported_nodes(message: JsonView) -> Option<Seq<JsonView>> {
    array_of(state_member(message, "nodes"@))
}

/// The controller that the server reports.
pub open spec fn reported_controller(message: JsonView) -> JsonView {
    match state_member(message, "controller"@) {
        Some(controller) => controller,
        None => JsonView::Null,
    }
}

/// The statistics that a controller reports.
pub open spec fn reported_statistics(controller: JsonView) -> JsonView {
    match controller.member("statistics"@) {
        Some(statistics) => statistics,
        None => JsonView::Null,
    }
}

/// The report on the controller and the network.
pub open spec fn report(message: JsonView, nodes: Seq<JsonView>) -> Seq<ActionView> {
    let controller = reported_controller(message);
    seq![
        ActionView::Print(controller_line_text(controller, nodes.len(), ready_count(nodes))),
        ActionView::Print(traffic_line_text(reported_statistics(controller))),
        ActionView::Print("Status: "@ + counts_text(status_entries(nodes))),
    ]
}

/// The table of nodes.
pub open spec fn table(nodes: Seq<JsonView>) -> Seq<ActionView> {
    seq![ActionView::Print(table_head_text())] + nodes.map_values(
        |node: JsonView| ActionView::Print(table_row_text(node)),
    )
}

/// The answer that reports on the controller and the network has come.
pub open spec fn reported(run: RunView, message: JsonView) -> ProgressView {
    if run.raw_json {
        finished(run, seq![ActionView::Print(pretty_text(message))])
    } else {
        match reported_nodes(message) {
            Some(nodes) => finished(run, report(message, nodes)),
            None => failed(run, seq!["state did not contain nodes"@]),
        }
    }
}

/// The answer that lists the nodes has come.
pub open spec fn listing(run: RunView, dead_only: bool, message: JsonView) -> ProgressView {
    match reported_nodes(message) {
        Some(nodes) => if run.raw_json {
            finished(
                run,
                seq![ActionView::Print(pretty_text(JsonView::Array(listed(nodes, dead_only))))],
            )
        } else {
            finished(run, table(listed(nodes, dead_only)))
        },
        None => failed(run, seq!["state did not contain nodes"@]),
    }
}

/// The answer on whether the node is failed has come.
pub open spec fn confirmed(run: RunView, node_id: u32, message: JsonView) -> ProgressView {
    if says_failed(message) {
        asked(
            run,
            Purpose::Show,
            "controller.remove_failed_node"@,
            node_payload_value(node_id),
        )
    } else {
        failed(
            run,
            seq!["node "@ + decimal(node_id as nat) + " is not marked failed by the controller"@],
        )
    }
}

/// The server did what it was asked, and the answer is used.
pub open spec fn answered(run: RunView, purpose: Purpose, message: JsonView) -> ProgressView {
    match purpose {
        Purpose::Report => reported(run, message),
        Purpose::Listing { dead_only } => listing(run, dead_only, message),
        Purpose::Show => finished(
            run,
            seq![ActionView::Print(result_text(run.raw_json, message))],
        ),
        Purpose::Confirm { node_id } => confirmed(run, node_id, message),
        Purpose::Start { timeout } => ProgressView {
            run: RunView { phase: PhaseView::Listening, ..run },
            actions: seq![
                ActionView::Print(result_text(run.raw_json, message)),
                ActionView::Note(
                    "Inclusion started; listening for "@ + decimal(timeout as nat) + "s..."@,
                ),
                ActionView::Clock(timeout),
                ActionView::Listen,
            ],
        },
        Purpose::Stop => finished(
            run,
            seq![
                ActionView::Note("Inclusion stopped."@),
                ActionView::Print(result_text(run.raw_json, message)),
            ],
        ),
    }
}

/// A run that waits for the server's greeting.
pub open spec fn after_greeting(run: RunView, event: EventView) -> ProgressView {
    match event {
        EventView::Message(message) => match schema_version(message) {
            Some(version) => ProgressView {
                run: RunView { phase: PhaseView::Schema, ..run },
                actions: seq![
                    ActionView::Send(compact_text(schema_request_value(version))),
                    ActionView::Receive,
                ],
            },
            None => failed(
                run,
                seq!["server did not send maxSchemaVersion: "@ + compact_text(message)],
            ),
        },
        EventView::Silent(failure) => failed(run, failure),
        EventView::ReadFailed(failure) => failed(run, failure),
        EventView::SendFailed(failure) => failed(run, failure),
        EventView::Deadline => unmoved(run, seq![ActionView::Receive]),
    }
}

/// A run that waits for the answer to the schema request.
pub open spec fn after_schema(run: RunView, event: EventView) -> ProgressView {
    match event {
        EventView::Message(message) => if !answers(message, "schema"@) {
            unmoved(run, seq![ActionView::Receive])
        } else if !succeeded(message) {
            failed(run, seq![refusal(message)])
        } else {
            task_begun(run)
        },
        EventView::Silent(failure) => failed(run, failure),
        EventView::ReadFailed(failure) => failed(run, failure),
        EventView::SendFailed(failure) => failed(run, failure),
        EventView::Deadline => unmoved(run, seq![ActionView::Receive]),
    }
}

/// A run that waits for the answer to a request.
pub open spec fn after_request(
    run: RunView,
    purpose: Purpose,
    command: Seq<char>,
    id: Seq<char>,
    event: EventView,
) -> ProgressView {
    match event {
        EventView::Message(message) => if !answers(message, id) {
            unmoved(run, seq![ActionView::Receive])
        } else if !succeeded(message) {
            failed(run, in_purpose(purpose, seq![refusal(message)]))
        } else {
            answered(run, purpose, message)
        },
        EventView::Silent(failure) => failed(
            run,
            in_purpose(purpose, in_context("wait for "@ + command, failure)),
        ),
        EventView::ReadFailed(failure) => failed(
            run,
            in_purpose(purpose, in_context("wait for "@ + command, failure)),
        ),
        EventView::SendFailed(failure) => failed(
            run,
            in_purpose(purpose, in_context("send "@ + command, failure)),
        ),
        EventView::Deadline => unmoved(run, seq![ActionView::Receive]),
    }
}

/// A run that listens to what happens during inclusion. Silence does not end it: inclusion is
/// stopped at the deadline, however quiet the network is.
pub open spec fn while_listening(run: RunView, event: EventView) -> ProgressView {
    match event {
        EventView::Message(message) => unmoved(
            run,
            seq![
                ActionView::Print(inclusion_event_text(run.raw_json, message)),
                ActionView::Listen,
            ],
        ),
        EventView::Silent(_) => unmoved(run, seq![ActionView::Listen]),
        EventView::ReadFailed(failure) => failed(run, in_context("read inclusion event"@, failure)),
        EventView::SendFailed(failure) => failed(run, failure),
        EventView::Deadline => asked(
            run,
            Purpose::Stop,
            "controller.stop_inclusion"@,
            empty_payload_value(),
        ),
    }
}

/// The state after an event, and what to do then.
pub open spec fn advanced(run: RunView, event: EventView) -> ProgressView {
    match run.phase {
        PhaseView::Greeting => after_greeting(run, event),
        PhaseView::Schema => after_schema(run, event),
        PhaseView::Waiting { purpose, command, id } => after_request(
            run,
            purpose,
            command,
            id,
            event,
        ),
        PhaseView::Listening => while_listening(run, event),
        PhaseView::Over => unmoved(run, seq![]),
    }
}

/// Whether a run in that state can have come about: every request so far had its number.
pub open spec fn reachable(run: RunView) -> bool {
    &&& 1 <= run.next_id <= 3
    &&& match run.phase {
        PhaseView::Greeting => run.next_id == 1,
        PhaseView::Schema => run.next_id == 1,
        PhaseView::Waiting { purpose: Purpose::Confirm { .. }, .. } => run.next_id == 2,
        PhaseView::Waiting { purpose: Purpose::Start { .. }, .. } => run.next_id == 2,
        PhaseView::Waiting { .. } => run.next_id >= 2,
        PhaseView::Listening => run.next_id == 2,
        PhaseView::Over => true,
    }
}

/// The state of a run after some events.
pub open spec fn after(run: RunView, events: Seq<EventView>) -> RunView
    decreases events.len(),
{
    if events.len() == 0 {
        run
    } else {
        advanced(after(run, events.drop_last()), events.last()).run
    }
}

/// Everything that a run says to do in the course of some events.
pub open spec fn actions_of(run: RunView, events: Seq<EventView>) -> Seq<ActionView>
    decreases events.len(),
{
    if events.len() == 0 {
        seq![]
    } else {
        actions_of(run, events.drop_last()) + advanced(
            after(run, events.drop_last()),
            events.last(),
        ).actions
    }
}

/// A run of the client.
pub struct Run {
    raw_json: bool,
    task: Commands,
    client: ZwaveClient,
    phase: Phase,
}

/// The run after an event, and what to do then.
pub struct Progress {
    pub run: Run,
    pub actions: Vec<Action>,
}

impl View for Run {
    type V = RunView;

    closed spec fn view(&self) -> RunView {
        RunView {
            raw_json: self.raw_json,
            task: self.task@,
            next_id: self.client.next_id,
            phase: self.phase@,
        }
    }
}

impl View for Progress {
    type V = ProgressView;

    open spec fn view(&self) -> ProgressView {
        ProgressView { run: self.run@, actions: actions_view(self.actions@) }
    }
}

/// A list of one action.
fn one(action: Action) -> (actions: Vec<Action>)
    ensures
        actions_view(actions@) == seq![action@],
{
    let mut actions: Vec<Action> = Vec::new();
    actions.push(action);
    assert(actions_view(actions@) =~= seq![action@]);
    actions
}

/// A list with one action more.
fn and(actions: Vec<Action>, action: Action) -> (longer: Vec<Action>)
    ensures
        actions_view(longer@) == actions_view(actions@).push(action@),
{
    let mut longer: Vec<Action> = actions;
    longer.push(action);
    assert(actions_view(longer@) =~= actions_view(actions@).push(action@));
    longer
}

/// A member of the state that the server reports.
fn find_in_state<'a>(message: &'a Json, name: &str) -> (value: Option<&'a Json>)
    ensures
        option_view(value) == state_member(message@, name@),
{
    match message.get("result") {
        Some(result) => match result.get("state") {
            Some(state) => state.get(name),
            None => None,
        },
        None => None,
    }
}

/// The nodes that the server reports.
fn find_nodes(message: &Json) -> (nodes: Option<&Vec<Json>>)
    ensures
        nodes is Some == reported_nodes(message@) is Some,
        nodes is Some ==> list_view(nodes->0@) == reported_nodes(message@)->0,
{
    match find_in_state(message, "nodes") {
        Some(value) => value.as_array(),
        None => None,
    }
}

/// The report on the controller and the network.
pub fn status_report(message: &Json, nodes: &Vec<Json>) -> (actions: Vec<Action>)
    ensures
        actions_view(actions@) == report(message@, list_view(nodes@)),
{
    let null: Json = Json::Null;
    let controller: &Json = match find_in_state(message, "controller") {
        Some(controller) => controller,
        None => &null,
    };
    let statistics: &Json = match controller.get("statistics") {
        Some(statistics) => statistics,
        None => &null,
    };
    let summary = summarize_network(nodes.as_slice());
    let mut status: String = "Status: ".to_owned();
    status.append(format_counts(&summary.status_counts).as_str());
    let first = Action::Print(controller_line(controller, nodes.len(), summary.ready_nodes));
    let second = Action::Print(traffic_line(statistics));
    let actions = and(and(one(first), second), Action::Print(status));
    assert(actions_view(actions@) =~= report(message@, list_view(nodes@)));
    actions
}

/// The table of nodes.
pub fn node_table(nodes: &Vec<&Json>) -> (actions: Vec<Action>)
    ensures
        actions_view(actions@) == table(refs_view(nodes@)),
{
    let mut actions: Vec<Action> = one(Action::Print(table_head()));
    let ghost views = refs_view(nodes@);
    assert(actions_view(actions@) =~= table(views.take(0)));
    for i in 0..nodes.len()
        invariant
            views == refs_view(nodes@),
            actions_view(actions@) == table(views.take(i as int)),
    {
        actions = and(actions, Action::Print(table_row(nodes[i])));
        assert(actions_view(actions@) =~= table(views.take(i + 1)));
    }
    assert(views.take(views.len() as int) =~= views);
    actions
}

impl Run {
    #[verifier::type_invariant]
    spec fn well_formed(self) -> bool {
        reachable(self@)
    }

    /// A run that has just begun. The first thing to do is to wait for a message.
    pub fn start(raw_json: bool, task: Commands) -> (run: Run)
        ensures
            run@ == begun(raw_json, task@),
    {
        Run { raw_json, task, client: ZwaveClient::new(), phase: Phase::Greeting }
    }

    /// The run goes on as before.
    fn stay(self, actions: Vec<Action>) -> (progress: Progress)
        ensures
            progress@ == unmoved(self@, actions_view(actions@)),
    {
        Progress { run: self, actions }
    }

    /// The run ends with a failure.
    fn fail(self, failure: Failure) -> (progress: Progress)
        ensures
            progress@ == failed(self@, failure@),
    {
        proof {
            use_type_invariant(&self);
        }
        let run = Run {
            raw_json: self.raw_json,
            task: self.task,
            client: self.client,
            phase: Phase::Over,
        };
        Progress { run, actions: one(Action::Fail(failure)) }
    }

    /// The run ends after some last actions.
    fn finish(self, actions: Vec<Action>) -> (progress: Progress)
        ensures
            progress@ == finished(self@, actions_view(actions@)),
    {
        proof {
            use_type_invariant(&self);
        }
        let run = Run {
            raw_json: self.raw_json,
            task: self.task,
            client: self.client,
            phase: Phase::Over,
        };
        Progress { run, actions: and(actions, Action::Finish) }
    }

    /// The run sends its next request and waits for the answer.
    fn ask(self, purpose: Purpose, command: &str, payload: Json) -> (progress: Progress)
        requires
            payload@ is Object,
            reachable(asked(self@, purpose, command@, payload@).run),
        ensures
            progress@ == asked(self@, purpose, command@, payload@),
    {
        proof {
            use_type_invariant(&self);
        }
        let mut client: ZwaveClient = self.client;
        match client.request(command, payload) {
            Ok(request) => {
                let run = Run {
                    raw_json: self.raw_json,
                    task: self.task,
                    client,
                    phase: Phase::Waiting {
                        purpose,
                        command: request.command,
                        id: request.message_id,
                    },
                };
                let actions = and(one(Action::Send(request.text)), Action::Receive);
                let progress = Progress { run, actions };
                assert(progress@.actions =~= asked(self@, purpose, command@, payload@).actions);
                progress
            },
            Err(failure) => Progress {
                run: Run { raw_json: self.raw_json, task: self.task, client, phase: Phase::Over },
                actions: one(Action::Fail(failure)),
            },
        }
    }

    /// The run sends the request of a call, unless there is something wrong with its payload.
    pub fn begin_call(self, command: &str, payload: Result<Json, Failure>) -> (progress: Progress)
        requires
            self@.phase is Schema,
            payload is Ok ==> payload->Ok_0@ is Object,
        ensures
            progress@ == call_begun(self@, command@, payload_view(payload)),
    {
        proof {
            use_type_invariant(&self);
        }
        match payload {
            Ok(value) => self.ask(Purpose::Show, command, value),
            Err(failure) => self.fail(failure),
        }
    }

    /// The run sends the first request of its task.
    fn begin_task(self) -> (progress: Progress)
        requires
            self@.phase is Schema,
        ensures
            progress@ == task_begun(self@),
    {
        proof {
            use_type_invariant(&self);
        }
        match &self.task {
            Commands::Status => self.ask(Purpose::Report, "start_listening", empty_payload()),
            Commands::Nodes { dead } => {
                let dead_only: bool = *dead;
                self.ask(Purpose::Listing { dead_only }, "start_listening", empty_payload())
            },
            Commands::Dead => self.ask(
                Purpose::Listing { dead_only: true },
                "start_listening",
                empty_payload(),
            ),
            Commands::Ping { node_id } => {
                let payload: Json = node_payload(*node_id);
                self.ask(Purpose::Show, "node.ping", payload)
            },
            Commands::IsFailed { node_id } => {
                let payload: Json = node_payload(*node_id);
                self.ask(Purpose::Show, "controller.is_failed_node", payload)
            },
            Commands::RemoveFailed { node_id } => {
                let node_id: u32 = *node_id;
                self.ask(
                    Purpose::Confirm { node_id },
                    "controller.is_failed_node",
                    node_payload(node_id),
                )
            },
            Commands::RebuildRoutes => self.ask(
                Purpose::Show,
                "controller.begin_rebuilding_routes",
                empty_payload(),
            ),
            Commands::Include { timeout } => {
                let timeout: u64 = *timeout;
                self.ask(Purpose::Start { timeout }, "controller.begin_inclusion", empty_payload())
            },
            Commands::Call { command, payload } => {
                let payload: Result<Json, Failure> = parse_call_payload(payload.as_str());
                let command: String = command.clone();
                self.begin_call(command.as_str(), payload)
            },
        }
    }

    /// The answer that reports on the controller and the network has come.
    fn report(self, message: &Json) -> (progress: Progress)
        ensures
            progress@ == reported(self@, message@),
    {
        if self.raw_json {
            return self.finish(one(Action::Print(pretty(message))));
        }
        match find_nodes(message) {
            Some(nodes) => self.finish(status_report(message, nodes)),
            None => self.fail(Failure::new("state did not contain nodes".to_owned())),
        }
    }

    /// The answer that lists the nodes has come.
    fn list(self, dead_only: bool, message: &Json) -> (progress: Progress)
        ensures
            progress@ == listing(self@, dead_only, message@),
    {
        match find_nodes(message) {
            Some(nodes) => {
                let filtered: Vec<&Json> = list_nodes(nodes.as_slice(), dead_only);
                if self.raw_json {
                    return self.finish(one(Action::Print(pretty_list(&filtered))));
                }
                self.finish(node_table(&filtered))
            },
            None => self.fail(Failure::new("state did not contain nodes".to_owned())),
        }
    }

    /// The answer on whether the node is failed has come.
    fn confirm(self, node_id: u32, message: &Json) -> (progress: Progress)
        requires
            self@.next_id == 2,
        ensures
            progress@ == confirmed(self@, node_id, message@),
    {
        if !is_failed_node_result(message) {
            let mut text: String = "node ".to_owned();
            text.append(decimal_text(node_id as u64).as_str());
            text.append(" is not marked failed by the controller");
            return self.fail(Failure::new(text));
        }
        self.ask(Purpose::Show, "controller.remove_failed_node", node_payload(node_id))
    }

    /// Inclusion has started, and the run listens to what happens.
    fn listen(self, timeout: u64, message: &Json) -> (progress: Progress)
        requires
            self@.next_id == 2,
        ensures
            progress@ == answered(self@, Purpose::Start { timeout }, message@),
    {
        let first = Action::Print(show_result(self.raw_json, message));
        let mut note: String = "Inclusion started; listening for ".to_owned();
        note.append(decimal_text(timeout).as_str());
        note.append("s...");
        let actions = and(
            and(and(one(first), Action::Note(note)), Action::Clock(timeout)),
            Action::Listen,
        );
        let run = Run {
            raw_json: self.raw_json,
            task: self.task,
            client: self.client,
            phase: Phase::Listening,
        };
        let progress = Progress { run, actions };
        assert(progress@.actions =~= answered(
            self@,
            Purpose::Start { timeout },
            message@,
        ).actions);
        progress
    }

    /// The server did what it was asked, and the answer is used.
    fn answer(self, purpose: Purpose, message: &Json) -> (progress: Progress)
        requires
            purpose is Confirm || purpose is Start ==> self@.next_id == 2,
        ensures
            progress@ == answered(self@, purpose, message@),
    {
        match purpose {
            Purpose::Report => self.report(message),
            Purpose::Listing { dead_only } => self.list(dead_only, message),
            Purpose::Show => {
                let text: String = show_result(self.raw_json, message);
                self.finish(one(Action::Print(text)))
            },
            Purpose::Confirm { node_id } => self.confirm(node_id, message),
            Purpose::Start { timeout } => self.listen(timeout, message),
            Purpose::Stop => {
                let text: String = show_result(self.raw_json, message);
                let note = Action::Note("Inclusion stopped.".to_owned());
                let progress = self.finish(and(one(note), Action::Print(text)));
                assert(progress@.actions =~= answered(self@, purpose, message@).actions);
                progress
            },
        }
    }

    /// A run that waits for the server's greeting.
    fn greet(self, event: Event) -> (progress: Progress)
        requires
            self@.phase is Greeting,
        ensures
            progress@ == after_greeting(self@, event@),
    {
        proof {
            use_type_invariant(&self);
        }
        match event {
            Event::Message(message) => match max_schema(&message) {
                Ok(version) => {
                    let run = Run {
                        raw_json: self.raw_json,
                        task: self.task,
                        client: self.client,
                        phase: Phase::Schema,
                    };
                    let actions = and(one(Action::Send(schema_request(version))), Action::Receive);
                    let progress = Progress { run, actions };
                    assert(progress@.actions =~= after_greeting(self@, event@).actions);
                    progress
                },
                Err(failure) => self.fail(failure),
            },
            Event::Silent(failure) => self.fail(failure),
            Event::ReadFailed(failure) => self.fail(failure),
            Event::SendFailed(failure) => self.fail(failure),
            Event::Deadline => self.stay(one(Action::Receive)),
        }
    }

    /// A run that waits for the answer to the schema request.
    fn agree(self, event: Event) -> (progress: Progress)
        requires
            self@.phase is Schema,
        ensures
            progress@ == after_schema(self@, event@),
    {
        match event {
            Event::Message(message) => {
                if !is_answer(&message, "schema") {
                    return self.stay(one(Action::Receive));
                }
                match ensure_success(&message) {
                    Ok(_) => self.begin_task(),
                    Err(failure) => self.fail(failure),
                }
            },
            Event::Silent(failure) => self.fail(failure),
            Event::ReadFailed(failure) => self.fail(failure),
            Event::SendFailed(failure) => self.fail(failure),
            Event::Deadline => self.stay(one(Action::Receive)),
        }
    }

    /// A failure of a request ends the run.
    fn fail_request(self, purpose: Purpose, failure: Failure) -> (progress: Progress)
        ensures
            progress@ == failed(self@, in_purpose(purpose, failure@)),
    {
        match purpose {
            Purpose::Start { .. } => self.fail(failure.context("start inclusion".to_owned())),
            Purpose::Stop => self.fail(failure.context("stop inclusion".to_owned())),
            _ => self.fail(failure),
        }
    }

    /// A run that waits for the answer to a request.
    fn wait(self, purpose: Purpose, command: &str, id: &str, event: Event) -> (progress: Progress)
        requires
            purpose is Confirm || purpose is Start ==> self@.next_id == 2,
        ensures
            progress@ == after_request(self@, purpose, command@, id@, event@),
    {
        match event {
            Event::Message(message) => {
                if !is_answer(&message, id) {
                    return self.stay(one(Action::Receive));
                }
                match ensure_success(&message) {
                    Ok(_) => self.answer(purpose, &message),
                    Err(failure) => self.fail_request(purpose, failure),
                }
            },
            Event::Silent(failure) => {
                let mut text: String = "wait for ".to_owned();
                text.append(command);
                self.fail_request(purpose, failure.context(text))
            },
            Event::ReadFailed(failure) => {
                let mut text: String = "wait for ".to_owned();
                text.append(command);
                self.fail_request(purpose, failure.context(text))
            },
            Event::SendFailed(failure) => {
                let mut text: String = "send ".to_owned();
                text.append(command);
                self.fail_request(purpose, failure.context(text))
            },
            Event::Deadline => self.stay(one(Action::Receive)),
        }
    }

    /// A run that listens to what happens during inclusion.
    fn hear(self, event: Event) -> (progress: Progress)
        requires
            self@.phase is Listening,
        ensures
            progress@ == while_listening(self@, event@),
    {
        proof {
            use_type_invariant(&self);
        }
        match event {
            Event::Message(message) => {
                let text: String = show_inclusion_event(self.raw_json, &message);
                let progress = self.stay(and(one(Action::Print(text)), Action::Listen));
                assert(progress@.actions =~= while_listening(self@, event@).actions);
                progress
            },
            Event::Silent(_) => self.stay(one(Action::Listen)),
            Event::ReadFailed(failure) => self.fail(
                failure.context("read inclusion event".to_owned()),
            ),
            Event::SendFailed(failure) => self.fail(failure),
            Event::Deadline => self.ask(
                Purpose::Stop,
                "controller.stop_inclusion",
                empty_payload(),
            ),
        }
    }

    /// The run after an event, and what to do then.
    pub fn step(self, event: Event) -> (progress: Progress)
        ensures
            progress@ == advanced(self@, event@),
            reachable(progress@.run),
    {
        proof {
            use_type_invariant(&self);
        }
        match &self.phase {
            Phase::Greeting => self.greet(event),
            Phase::Schema => self.agree(event),
            Phase::Waiting { purpose, command, id } => {
                let purpose: Purpose = *purpose;
                let command: String = command.clone();
                let id: String = id.clone();
                self.wait(purpose, command.as_str(), id.as_str(), event)
            },
            Phase::Listening => self.hear(event),
            Phase::Over => {
                let actions: Vec<Action> = Vec::new();
                assert(actions_view(actions@) =~= seq![]);
                self.stay(actions)
            },
        }
    }
}

} // verus!
